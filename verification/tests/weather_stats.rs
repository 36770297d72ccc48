use mbar::weather_stats::WeatherCondition;

#[test]
fn weather_codes_map_to_conditions() {
    assert_eq!(WeatherCondition::from_code(Some(0)), WeatherCondition::Clear);
    assert_eq!(WeatherCondition::from_code(None), WeatherCondition::Clear);
    assert_eq!(WeatherCondition::from_code(Some(1)), WeatherCondition::Cloudy);
    assert_eq!(WeatherCondition::from_code(Some(3)), WeatherCondition::Cloudy);
    assert_eq!(WeatherCondition::from_code(Some(45)), WeatherCondition::Fog);
    assert_eq!(WeatherCondition::from_code(Some(48)), WeatherCondition::Fog);
    assert_eq!(WeatherCondition::from_code(Some(51)), WeatherCondition::Rain);
    assert_eq!(WeatherCondition::from_code(Some(82)), WeatherCondition::Rain);
    assert_eq!(WeatherCondition::from_code(Some(85)), WeatherCondition::Snow);
    assert_eq!(WeatherCondition::from_code(Some(86)), WeatherCondition::Snow);
    assert_eq!(WeatherCondition::from_code(Some(4)), WeatherCondition::Unknown);
    assert_eq!(WeatherCondition::from_code(Some(50)), WeatherCondition::Unknown);
    assert_eq!(WeatherCondition::from_code(Some(83)), WeatherCondition::Unknown);
    assert_eq!(WeatherCondition::from_code(Some(95)), WeatherCondition::Unknown);
    assert_eq!(WeatherCondition::from_code(Some(-1)), WeatherCondition::Unknown);
}

#[test]
fn weather_labels_and_pictograms() {
    assert_eq!(WeatherCondition::Clear.description(), "Clear");
    assert_eq!(WeatherCondition::Clear.emoji(), "☀️");
    assert_eq!(WeatherCondition::Cloudy.description(), "Cloudy");
    assert_eq!(WeatherCondition::Cloudy.emoji(), "☁️");
    assert_eq!(WeatherCondition::Fog.description(), "Fog");
    assert_eq!(WeatherCondition::Fog.emoji(), "🌫️");
    assert_eq!(WeatherCondition::Rain.description(), "Rain");
    assert_eq!(WeatherCondition::Rain.emoji(), "🌧️");
    assert_eq!(WeatherCondition::Snow.description(), "Snow");
    assert_eq!(WeatherCondition::Snow.emoji(), "❄️");
    assert_eq!(WeatherCondition::Unknown.description(), "Unknown");
    assert_eq!(WeatherCondition::Unknown.emoji(), "❓");
}
