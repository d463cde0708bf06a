use bottom::colour::{get_colour_from_config, Colour, NamedColour};
use bottom::config::{
    choose_config_location, generate_config_colours, get_colours_from_config,
    validate_refresh_rate, CanvasColours, ColourField, Config, ConfigColours, ConfigError,
    ConfigLocation, ConfigPlaces, Painter, DEFAULT_REFRESH_RATE_IN_MILLISECONDS,
    MINIMUM_REFRESH_RATE_IN_MILLISECONDS,
};

fn no_colours() -> ConfigColours {
    ConfigColours {
        border_color: None,
        highlighted_border_color: None,
        text_color: None,
        avg_cpu_color: None,
        all_cpu_color: None,
        cpu_core_colors: None,
        ram_color: None,
        swap_color: None,
        rx_color: None,
        tx_color: None,
        table_header_color: None,
        selected_text_color: None,
        selected_bg_color: None,
        widget_title_color: None,
        graph_color: None,
        battery_colors: None,
    }
}

fn text(s: &str) -> Option<String> {
    Some(s.to_string())
}

fn places(given: bool, windows: bool, home: bool, home_config: bool, dir: bool) -> ConfigPlaces {
    ConfigPlaces {
        is_given: given,
        is_windows: windows,
        has_home_dir: home,
        home_config_exists: home_config,
        has_config_dir: dir,
    }
}

#[test]
fn hex_colours_are_read() {
    assert_eq!(get_colour_from_config("#000000"), Some(Colour::Rgb(0, 0, 0)));
    assert_eq!(get_colour_from_config("#ff8000"), Some(Colour::Rgb(255, 128, 0)));
    assert_eq!(get_colour_from_config("#FfA0b9"), Some(Colour::Rgb(255, 160, 185)));
    assert_eq!(get_colour_from_config("#ff800"), None);
    assert_eq!(get_colour_from_config("#ff80000"), None);
    assert_eq!(get_colour_from_config("#ff80g0"), None);
    assert_eq!(get_colour_from_config("#+f+f+f"), None);
}

#[test]
fn rgb_colours_are_read() {
    assert_eq!(get_colour_from_config("255,0,16"), Some(Colour::Rgb(255, 0, 16)));
    assert_eq!(get_colour_from_config(" 12 , 34 ,  56 "), Some(Colour::Rgb(12, 34, 56)));
    assert_eq!(get_colour_from_config("007,0,0255"), Some(Colour::Rgb(7, 0, 255)));
    assert_eq!(get_colour_from_config("256,0,0"), None);
    assert_eq!(get_colour_from_config("1,2"), None);
    assert_eq!(get_colour_from_config("1,2,3,4"), None);
    assert_eq!(get_colour_from_config("1,,3"), None);
    assert_eq!(get_colour_from_config("1, 2 2,3"), None);
    assert_eq!(get_colour_from_config("1,-2,3"), None);
    assert_eq!(get_colour_from_config("1,2,"), None);
    assert_eq!(get_colour_from_config("99999999999999999999,2,3"), None);
}

#[test]
fn colour_names_are_read_in_any_case() {
    assert_eq!(get_colour_from_config("red"), Some(Colour::Named(NamedColour::Red)));
    assert_eq!(get_colour_from_config("Red"), Some(Colour::Named(NamedColour::Red)));
    assert_eq!(get_colour_from_config("LIGHTBLUE"), Some(Colour::Named(NamedColour::LightBlue)));
    assert_eq!(get_colour_from_config("gray"), Some(Colour::Named(NamedColour::Gray)));
    assert_eq!(get_colour_from_config("grey"), Some(Colour::Named(NamedColour::Gray)));
    assert_eq!(get_colour_from_config("reset"), Some(Colour::Named(NamedColour::Reset)));
    assert_eq!(get_colour_from_config("black"), Some(Colour::Named(NamedColour::Black)));
    assert_eq!(get_colour_from_config("green"), Some(Colour::Named(NamedColour::Green)));
    assert_eq!(get_colour_from_config("yellow"), Some(Colour::Named(NamedColour::Yellow)));
    assert_eq!(get_colour_from_config("blue"), Some(Colour::Named(NamedColour::Blue)));
    assert_eq!(get_colour_from_config("magenta"), Some(Colour::Named(NamedColour::Magenta)));
    assert_eq!(get_colour_from_config("cyan"), Some(Colour::Named(NamedColour::Cyan)));
    assert_eq!(get_colour_from_config("darkgray"), Some(Colour::Named(NamedColour::DarkGray)));
    assert_eq!(get_colour_from_config("lightred"), Some(Colour::Named(NamedColour::LightRed)));
    assert_eq!(get_colour_from_config("lightgreen"), Some(Colour::Named(NamedColour::LightGreen)));
    assert_eq!(
        get_colour_from_config("lightyellow"),
        Some(Colour::Named(NamedColour::LightYellow))
    );
    assert_eq!(
        get_colour_from_config("lightmagenta"),
        Some(Colour::Named(NamedColour::LightMagenta))
    );
    assert_eq!(get_colour_from_config("lightcyan"), Some(Colour::Named(NamedColour::LightCyan)));
    assert_eq!(get_colour_from_config("white"), Some(Colour::Named(NamedColour::White)));
    assert_eq!(get_colour_from_config("purple"), None);
    assert_eq!(get_colour_from_config(" red"), None);
}

#[test]
fn short_texts_stand_for_no_colour() {
    assert_eq!(get_colour_from_config(""), None);
    assert_eq!(get_colour_from_config("#"), None);
    assert_eq!(get_colour_from_config("r"), None);
}

#[test]
fn a_list_of_colours_needs_every_text_valid() {
    let good = vec!["red".to_string(), "#010203".to_string(), "4,5,6".to_string()];
    assert_eq!(
        get_colours_from_config(&good),
        Some(vec![Colour::Named(NamedColour::Red), Colour::Rgb(1, 2, 3), Colour::Rgb(4, 5, 6)])
    );
    let bad = vec!["red".to_string(), "nothing".to_string(), "4,5,6".to_string()];
    assert_eq!(get_colours_from_config(&bad), None);
    assert_eq!(get_colours_from_config(&Vec::new()), Some(Vec::new()));
}

#[test]
fn configuration_without_colours_changes_nothing() {
    let mut painter = Painter { colours: CanvasColours::new() };
    let before = painter.clone();
    assert_eq!(generate_config_colours(&Config { colors: None }, &mut painter), Ok(()));
    assert_eq!(painter, before);
    assert_eq!(
        generate_config_colours(&Config { colors: Some(no_colours()) }, &mut painter),
        Ok(())
    );
    assert_eq!(painter, before);
}

#[test]
fn configured_colours_are_applied() {
    let mut colours = no_colours();
    colours.border_color = text("red");
    colours.highlighted_border_color = text("#0000ff");
    colours.text_color = text("1,2,3");
    colours.avg_cpu_color = text("green");
    colours.all_cpu_color = text("blue");
    colours.cpu_core_colors = Some(vec!["cyan".to_string(), "white".to_string()]);
    colours.ram_color = text("magenta");
    colours.swap_color = text("yellow");
    colours.rx_color = text("lightred");
    colours.tx_color = text("lightgreen");
    colours.table_header_color = text("lightblue");
    colours.selected_text_color = text("black");
    colours.selected_bg_color = text("lightcyan");
    colours.widget_title_color = text("gray");
    colours.graph_color = text("darkgray");
    colours.battery_colors = Some(vec!["#102030".to_string()]);
    let mut painter = Painter { colours: CanvasColours::new() };
    assert_eq!(generate_config_colours(&Config { colors: Some(colours) }, &mut painter), Ok(()));
    let c = &painter.colours;
    assert_eq!(c.border, Colour::Named(NamedColour::Red));
    assert_eq!(c.highlighted_border, Colour::Rgb(0, 0, 255));
    assert_eq!(c.text, Colour::Rgb(1, 2, 3));
    assert_eq!(c.avg_cpu, Colour::Named(NamedColour::Green));
    assert_eq!(c.all_cpu, Colour::Named(NamedColour::Blue));
    assert_eq!(
        c.cpu_core,
        vec![Colour::Named(NamedColour::Cyan), Colour::Named(NamedColour::White)]
    );
    assert_eq!(c.ram, Colour::Named(NamedColour::Magenta));
    assert_eq!(c.swap, Colour::Named(NamedColour::Yellow));
    assert_eq!(c.rx, Colour::Named(NamedColour::LightRed));
    assert_eq!(c.tx, Colour::Named(NamedColour::LightGreen));
    assert_eq!(c.table_header, Colour::Named(NamedColour::LightBlue));
    assert_eq!(c.selected_text, Colour::Named(NamedColour::Black));
    assert_eq!(c.selected_bg, Colour::Named(NamedColour::LightCyan));
    assert_eq!(c.widget_title, Colour::Named(NamedColour::Gray));
    assert_eq!(c.graph, Colour::Named(NamedColour::DarkGray));
    assert_eq!(c.battery, vec![Colour::Rgb(16, 32, 48)]);
}

#[test]
fn the_first_invalid_colour_stops_the_rest() {
    let mut colours = no_colours();
    colours.border_color = text("red");
    colours.text_color = text("not a colour");
    colours.ram_color = text("blue");
    colours.graph_color = text("also not");
    let mut painter = Painter { colours: CanvasColours::new() };
    assert_eq!(
        generate_config_colours(&Config { colors: Some(colours) }, &mut painter),
        Err(ConfigError::InvalidColour(ColourField::TextColor))
    );
    assert_eq!(painter.colours.border, Colour::Named(NamedColour::Red));
    assert_eq!(painter.colours.text, Colour::Named(NamedColour::Reset));
    assert_eq!(painter.colours.ram, Colour::Named(NamedColour::Reset));
}

#[test]
fn an_invalid_colour_in_a_list_names_the_list() {
    let mut colours = no_colours();
    colours.cpu_core_colors = Some(vec!["red".to_string(), "".to_string()]);
    let mut painter = Painter { colours: CanvasColours::new() };
    assert_eq!(
        generate_config_colours(&Config { colors: Some(colours) }, &mut painter),
        Err(ConfigError::InvalidColour(ColourField::CpuCoreColors))
    );
    assert!(painter.colours.cpu_core.is_empty());
    let mut colours = no_colours();
    colours.battery_colors = Some(vec!["300,0,0".to_string()]);
    assert_eq!(
        generate_config_colours(&Config { colors: Some(colours) }, &mut painter),
        Err(ConfigError::InvalidColour(ColourField::BatteryColors))
    );
}

#[test]
fn one_setting_is_applied_alone() {
    let mut colours = no_colours();
    colours.swap_color = text("#0a0b0c");
    colours.rx_color = text("??");
    let mut canvas = CanvasColours::new();
    assert!(canvas.set_field(&colours, ColourField::SwapColor));
    assert_eq!(canvas.swap, Colour::Rgb(10, 11, 12));
    assert!(!canvas.set_field(&colours, ColourField::RxColor));
    assert_eq!(canvas.rx, Colour::Named(NamedColour::Reset));
    assert!(canvas.set_field(&colours, ColourField::TxColor));
    assert_eq!(canvas.tx, Colour::Named(NamedColour::Reset));
}

#[test]
fn refresh_rate_has_a_minimum() {
    assert_eq!(MINIMUM_REFRESH_RATE_IN_MILLISECONDS, 250);
    assert_eq!(DEFAULT_REFRESH_RATE_IN_MILLISECONDS, 1000);
    assert_eq!(validate_refresh_rate(249), Err(ConfigError::RefreshRateTooSmall));
    assert_eq!(validate_refresh_rate(0), Err(ConfigError::RefreshRateTooSmall));
    assert_eq!(validate_refresh_rate(250), Ok(250));
    assert_eq!(validate_refresh_rate(1000), Ok(1000));
    assert_eq!(validate_refresh_rate(u64::MAX as u128), Ok(u64::MAX));
    assert_eq!(validate_refresh_rate(u64::MAX as u128 + 1), Err(ConfigError::RefreshRateTooLarge));
}

#[test]
fn a_given_path_goes_first() {
    assert_eq!(choose_config_location(places(true, false, true, true, true)), ConfigLocation::Given);
    assert_eq!(
        choose_config_location(places(true, true, false, false, false)),
        ConfigLocation::Given
    );
}

#[test]
fn windows_uses_the_configuration_directory() {
    assert_eq!(
        choose_config_location(places(false, true, true, true, true)),
        ConfigLocation::ConfigDir
    );
    assert_eq!(
        choose_config_location(places(false, true, true, true, false)),
        ConfigLocation::Nowhere
    );
}

#[test]
fn an_existing_file_in_the_home_directory_stays_in_use() {
    assert_eq!(
        choose_config_location(places(false, false, true, true, true)),
        ConfigLocation::HomeConfig
    );
    assert_eq!(
        choose_config_location(places(false, false, true, false, true)),
        ConfigLocation::ConfigDir
    );
    assert_eq!(
        choose_config_location(places(false, false, true, false, false)),
        ConfigLocation::Nowhere
    );
    assert_eq!(
        choose_config_location(places(false, false, false, true, true)),
        ConfigLocation::Nowhere
    );
}
