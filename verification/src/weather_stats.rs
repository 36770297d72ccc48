use vstd::prelude::*;

verus! {

/// The weather conditions the dashboard tells apart, from a WMO weather code.
#[derive(Clone, Copy, Debug, PartialEq, Eq, Structural)]
pub enum WeatherCondition {
    Clear,
    Cloudy,
    Fog,
    Rain,
    Snow,
    Unknown,
}

/// The condition that a WMO weather code stands for.
pub open spec fn condition_of_code(code: int) -> WeatherCondition {
    if code == 0 {
        WeatherCondition::Clear
    } else if code == 1 || code == 2 || code == 3 {
        WeatherCondition::Cloudy
    } else if code == 45 || code == 48 {
        WeatherCondition::Fog
    } else if 51 <= code <= 82 {
        WeatherCondition::Rain
    } else if code == 85 || code == 86 {
        WeatherCondition::Snow
    } else {
        WeatherCondition::Unknown
    }
}

/// The WMO code table the panel uses: 0 is clear, 1 to 3 cloudy, 45 and 48
/// fog, 51 to 82 rain, 85 and 86 snow, and every other code unknown.
pub proof fn law_weather_code_table(code: int)
    ensures
        code == 0 ==> condition_of_code(code) == WeatherCondition::Clear,
        1 <= code <= 3 ==> condition_of_code(code) == WeatherCondition::Cloudy,
        (code == 45 || code == 48) ==> condition_of_code(code) == WeatherCondition::Fog,
        51 <= code <= 82 ==> condition_of_code(code) == WeatherCondition::Rain,
        (code == 85 || code == 86) ==> condition_of_code(code) == WeatherCondition::Snow,
        (code < 0 || (4 <= code <= 44) || (46 <= code <= 47) || (49 <= code <= 50) || (83
            <= code <= 84) || code > 86) ==> condition_of_code(code) == WeatherCondition::Unknown,
{
}

impl WeatherCondition {
    /// Classifies a weather code; a missing code counts as code 0.
    pub fn from_code(code: Option<i64>) -> (c: WeatherCondition)
        ensures
            c == condition_of_code(
                match code {
                    Some(v) => v as int,
                    None => 0,
                },
            ),
            code is None ==> c == WeatherCondition::Clear,
            code matches Some(v) ==> {
                &&& v == 0 ==> c == WeatherCondition::Clear
                &&& 1 <= v <= 3 ==> c == WeatherCondition::Cloudy
                &&& (v == 45 || v == 48) ==> c == WeatherCondition::Fog
                &&& 51 <= v <= 82 ==> c == WeatherCondition::Rain
                &&& (v == 85 || v == 86) ==> c == WeatherCondition::Snow
                &&& (v < 0 || (4 <= v <= 44) || (46 <= v <= 47) || (49 <= v <= 50) || (83 <= v
                    <= 84) || v > 86) ==> c == WeatherCondition::Unknown
            },
    {
        let v: i64 = match code {
            Some(v) => v,
            None => 0,
        };
        if v == 0 {
            WeatherCondition::Clear
        } else if v == 1 || v == 2 || v == 3 {
            WeatherCondition::Cloudy
        } else if v == 45 || v == 48 {
            WeatherCondition::Fog
        } else if 51 <= v && v <= 82 {
            WeatherCondition::Rain
        } else if v == 85 || v == 86 {
            WeatherCondition::Snow
        } else {
            WeatherCondition::Unknown
        }
    }

    /// The label shown for the condition.
    pub fn description(&self) -> (s: &'static str)
        ensures
            s@ == match *self {
                WeatherCondition::Clear => "Clear"@,
                WeatherCondition::Cloudy => "Cloudy"@,
                WeatherCondition::Fog => "Fog"@,
                WeatherCondition::Rain => "Rain"@,
                WeatherCondition::Snow => "Snow"@,
                WeatherCondition::Unknown => "Unknown"@,
            },
    {
        match self {
            WeatherCondition::Clear => "Clear",
            WeatherCondition::Cloudy => "Cloudy",
            WeatherCondition::Fog => "Fog",
            WeatherCondition::Rain => "Rain",
            WeatherCondition::Snow => "Snow",
            WeatherCondition::Unknown => "Unknown",
        }
    }

    /// The pictogram shown for the condition.
    pub fn emoji(&self) -> (s: &'static str)
        ensures
            s@ == match *self {
                WeatherCondition::Clear => "\u{2600}\u{fe0f}"@,
                WeatherCondition::Cloudy => "\u{2601}\u{fe0f}"@,
                WeatherCondition::Fog => "\u{1f32b}\u{fe0f}"@,
                WeatherCondition::Rain => "\u{1f327}\u{fe0f}"@,
                WeatherCondition::Snow => "\u{2744}\u{fe0f}"@,
                WeatherCondition::Unknown => "\u{2753}"@,
            },
    {
        match self {
            WeatherCondition::Clear => "\u{2600}\u{fe0f}",
            WeatherCondition::Cloudy => "\u{2601}\u{fe0f}",
            WeatherCondition::Fog => "\u{1f32b}\u{fe0f}",
            WeatherCondition::Rain => "\u{1f327}\u{fe0f}",
            WeatherCondition::Snow => "\u{2744}\u{fe0f}",
            WeatherCondition::Unknown => "\u{2753}",
        }
    }
}

} // verus!
