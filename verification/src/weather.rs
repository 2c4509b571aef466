//! A weather lookup behind an interface, with a fixed-answer client.
use vstd::prelude::*;
use vstd::string::*;
use crate::text::{lowercase, spec_lowercase};

verus! {

/// A place on Earth.
pub struct Location {
    pub city: String,
    pub country: String,
}

pub struct LocationView {
    pub city: Seq<char>,
    pub country: Seq<char>,
}

impl View for Location {
    type V = LocationView;

    open spec fn view(&self) -> LocationView {
        LocationView { city: self.city@, country: self.country@ }
    }
}

/// The weather at a place. The temperature is an `f32` held as its bit
/// pattern.
pub struct Weather {
    pub location: Location,
    pub temperature_bits: u32,
    pub description: String,
    pub humidity_percent: u8,
}

pub struct WeatherView {
    pub location: LocationView,
    pub temperature_bits: u32,
    pub description: Seq<char>,
    pub humidity_percent: u8,
}

impl View for Weather {
    type V = WeatherView;

    open spec fn view(&self) -> WeatherView {
        WeatherView {
            location: self.location@,
            temperature_bits: self.temperature_bits,
            description: self.description@,
            humidity_percent: self.humidity_percent,
        }
    }
}

/// Why a weather lookup failed.
pub enum AppError {
    NotFound(String),
    ApiFailure(String),
    ParsingError(String),
    Unknown(String),
}

pub enum AppErrorView {
    NotFound(Seq<char>),
    ApiFailure(Seq<char>),
    ParsingError(Seq<char>),
    Unknown(Seq<char>),
}

impl View for AppError {
    type V = AppErrorView;

    open spec fn view(&self) -> AppErrorView {
        match self {
            AppError::NotFound(m) => AppErrorView::NotFound(m@),
            AppError::ApiFailure(m) => AppErrorView::ApiFailure(m@),
            AppError::ParsingError(m) => AppErrorView::ParsingError(m@),
            AppError::Unknown(m) => AppErrorView::Unknown(m@),
        }
    }
}

/// The text an error is displayed as.
pub open spec fn app_error_message(e: AppErrorView) -> Seq<char> {
    match e {
        AppErrorView::NotFound(m) => "Domain Error: Location not found. "@ + m,
        AppErrorView::ApiFailure(m) => "Infrastructure Error: API call failed. "@ + m,
        AppErrorView::ParsingError(m) => "Application Error: Failed to parse response data. "@ + m,
        AppErrorView::Unknown(m) => "An unknown error occurred: "@ + m,
    }
}

impl AppError {
    /// The display text of the error.
    pub fn message(&self) -> (s: String)
        ensures
            s@ == app_error_message(self@),
    {
        match self {
            AppError::NotFound(m) => String::from_str("Domain Error: Location not found. ").concat(
                m.as_str(),
            ),
            AppError::ApiFailure(m) => String::from_str(
                "Infrastructure Error: API call failed. ",
            ).concat(m.as_str()),
            AppError::ParsingError(m) => String::from_str(
                "Application Error: Failed to parse response data. ",
            ).concat(m.as_str()),
            AppError::Unknown(m) => String::from_str("An unknown error occurred: ").concat(
                m.as_str(),
            ),
        }
    }
}

pub open spec fn weather_result_view(r: Result<Weather, AppError>) -> Result<WeatherView, AppErrorView> {
    match r {
        Ok(w) => Ok(w@),
        Err(e) => Err(e@),
    }
}

/// A source of weather reports.
pub trait WeatherApi {
    /// What the source answers for a location.
    spec fn report_for(&self, location: Seq<char>) -> Result<WeatherView, AppErrorView>;

    /// Looks up the weather at a location.
    fn fetch_weather(&self, location: &str) -> (r: Result<Weather, AppError>)
        ensures
            weather_result_view(r) == self.report_for(location@),
    ;
}

/// A client with fixed answers, for trying the service without a network.
pub struct MockWeatherClient;

/// Bit pattern of the `f32` 15.5.
pub open spec fn london_temperature_bits() -> u32 {
    0x41780000
}

/// Bit pattern of the `f32` 22.1.
pub open spec fn tokyo_temperature_bits() -> u32 {
    0x41b0cccd
}

/// The fixed answers, chosen by the lowercased location.
pub open spec fn mock_report(location: Seq<char>) -> Result<WeatherView, AppErrorView> {
    let key = spec_lowercase(location);
    if key == "london"@ {
        Ok(WeatherView {
            location: LocationView { city: "London"@, country: "UK"@ },
            temperature_bits: london_temperature_bits(),
            description: "Cloudy with occasional drizzle."@,
            humidity_percent: 78,
        })
    } else if key == "tokyo"@ {
        Ok(WeatherView {
            location: LocationView { city: "Tokyo"@, country: "Japan"@ },
            temperature_bits: tokyo_temperature_bits(),
            description: "Sunny and pleasant."@,
            humidity_percent: 65,
        })
    } else if key == "mars"@ {
        Err(AppErrorView::NotFound("Mars is outside our supported geographical scope."@))
    } else if key == ""@ {
        Err(AppErrorView::ParsingError("Received empty request payload from API gateway."@))
    } else {
        Err(
            AppErrorView::ApiFailure(
                "Could not retrieve weather data for '"@ + location
                    + "'. Check location spelling."@,
            ),
        )
    }
}

impl WeatherApi for MockWeatherClient {
    open spec fn report_for(&self, location: Seq<char>) -> Result<WeatherView, AppErrorView> {
        mock_report(location)
    }

    fn fetch_weather(&self, location: &str) -> (r: Result<Weather, AppError>) {
        let key = lowercase(location);
        if key == String::from_str("london") {
            Ok(Weather {
                location: Location {
                    city: String::from_str("London"),
                    country: String::from_str("UK"),
                },
                temperature_bits: 0x41780000,
                description: String::from_str("Cloudy with occasional drizzle."),
                humidity_percent: 78,
            })
        } else if key == String::from_str("tokyo") {
            Ok(Weather {
                location: Location {
                    city: String::from_str("Tokyo"),
                    country: String::from_str("Japan"),
                },
                temperature_bits: 0x41b0cccd,
                description: String::from_str("Sunny and pleasant."),
                humidity_percent: 65,
            })
        } else if key == String::from_str("mars") {
            Err(AppError::NotFound(String::from_str("Mars is outside our supported geographical scope.")))
        } else if key == String::from_str("") {
            Err(AppError::ParsingError(String::from_str("Received empty request payload from API gateway.")))
        } else {
            Err(
                AppError::ApiFailure(
                    String::from_str("Could not retrieve weather data for '").concat(location).concat(
                        "'. Check location spelling.",
                    ),
                ),
            )
        }
    }
}

/// Looks up the weather through whichever source it was given.
pub struct GetWeatherUseCase<T: WeatherApi> {
    api_client: T,
}

impl<T: WeatherApi> GetWeatherUseCase<T> {
    pub fn new(api_client: T) -> (u: Self)
        ensures
            u.client() == api_client,
    {
        GetWeatherUseCase { api_client }
    }

    pub closed spec fn client(&self) -> T {
        self.api_client
    }

    /// The report of the source for the location.
    pub fn execute(&self, location: &str) -> (r: Result<Weather, AppError>)
        ensures
            weather_result_view(r) == self.client().report_for(location@),
    {
        self.api_client.fetch_weather(location)
    }
}

} // verus!
