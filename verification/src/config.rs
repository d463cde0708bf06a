//! The configuration: the colours that a configuration file sets, the
//! refresh rate, and where the configuration file is looked for.

use vstd::prelude::*;
use crate::colour::{Colour, NamedColour, colour_of, get_colour_from_config};

verus! {

/// The smallest refresh rate that is accepted, in milliseconds.
pub const MINIMUM_REFRESH_RATE_IN_MILLISECONDS: u64 = 250;

/// The refresh rate where none is given, in milliseconds.
pub const DEFAULT_REFRESH_RATE_IN_MILLISECONDS: u64 = 1000;

/// A colour setting of the configuration file.
#[derive(Clone, Copy, Debug, PartialEq, Eq, Structural)]
pub enum ColourField {
    BorderColor,
    HighlightedBorderColor,
    TextColor,
    AvgCpuColor,
    AllCpuColor,
    CpuCoreColors,
    RamColor,
    SwapColor,
    RxColor,
    TxColor,
    TableHeaderColor,
    SelectedTextColor,
    SelectedBgColor,
    WidgetTitleColor,
    GraphColor,
    BatteryColors,
}

/// Why a configuration is refused.
#[derive(Clone, Copy, Debug, PartialEq, Eq, Structural)]
pub enum ConfigError {
    /// The refresh rate is below the minimum.
    RefreshRateTooSmall,
    /// The refresh rate does not fit in 64 bits.
    RefreshRateTooLarge,
    /// A colour setting holds a text that stands for no colour.
    InvalidColour(ColourField),
}

/// The colour settings of a configuration file, each as the file writes it.
#[derive(Clone, Debug, PartialEq, Eq)]
pub struct ConfigColours {
    pub border_color: Option<String>,
    pub highlighted_border_color: Option<String>,
    pub text_color: Option<String>,
    pub avg_cpu_color: Option<String>,
    pub all_cpu_color: Option<String>,
    pub cpu_core_colors: Option<Vec<String>>,
    pub ram_color: Option<String>,
    pub swap_color: Option<String>,
    pub rx_color: Option<String>,
    pub tx_color: Option<String>,
    pub table_header_color: Option<String>,
    pub selected_text_color: Option<String>,
    pub selected_bg_color: Option<String>,
    pub widget_title_color: Option<String>,
    pub graph_color: Option<String>,
    pub battery_colors: Option<Vec<String>>,
}

/// A configuration file.
#[derive(Clone, Debug, PartialEq, Eq)]
pub struct Config {
    pub colors: Option<ConfigColours>,
}

/// The colours that the painter draws with.
#[derive(Clone, Debug, PartialEq, Eq)]
pub struct CanvasColours {
    pub border: Colour,
    pub highlighted_border: Colour,
    pub text: Colour,
    pub avg_cpu: Colour,
    pub all_cpu: Colour,
    pub cpu_core: Vec<Colour>,
    pub ram: Colour,
    pub swap: Colour,
    pub rx: Colour,
    pub tx: Colour,
    pub table_header: Colour,
    pub selected_text: Colour,
    pub selected_bg: Colour,
    pub widget_title: Colour,
    pub graph: Colour,
    pub battery: Vec<Colour>,
}

/// The mathematical value of [`CanvasColours`].
pub ghost struct ColoursView {
    pub border: Colour,
    pub highlighted_border: Colour,
    pub text: Colour,
    pub avg_cpu: Colour,
    pub all_cpu: Colour,
    pub cpu_core: Seq<Colour>,
    pub ram: Colour,
    pub swap: Colour,
    pub rx: Colour,
    pub tx: Colour,
    pub table_header: Colour,
    pub selected_text: Colour,
    pub selected_bg: Colour,
    pub widget_title: Colour,
    pub graph: Colour,
    pub battery: Seq<Colour>,
}

impl View for CanvasColours {
    type V = ColoursView;

    open spec fn view(&self) -> ColoursView {
        ColoursView {
            border: self.border,
            highlighted_border: self.highlighted_border,
            text: self.text,
            avg_cpu: self.avg_cpu,
            all_cpu: self.all_cpu,
            cpu_core: self.cpu_core@,
            ram: self.ram,
            swap: self.swap,
            rx: self.rx,
            tx: self.tx,
            table_header: self.table_header,
            selected_text: self.selected_text,
            selected_bg: self.selected_bg,
            widget_title: self.widget_title,
            graph: self.graph,
            battery: self.battery@,
        }
    }
}

/// What draws the widgets; only its colours are of concern here.
#[derive(Clone, Debug, PartialEq, Eq)]
pub struct Painter {
    pub colours: CanvasColours,
}

/// The number of colour settings.
pub const COLOUR_FIELDS: usize = 16;

/// The colour settings in the order in which they are applied.
pub open spec fn field_at(k: nat) -> ColourField {
    if k == 0 {
        ColourField::BorderColor
    } else if k == 1 {
        ColourField::HighlightedBorderColor
    } else if k == 2 {
        ColourField::TextColor
    } else if k == 3 {
        ColourField::AvgCpuColor
    } else if k == 4 {
        ColourField::AllCpuColor
    } else if k == 5 {
        ColourField::CpuCoreColors
    } else if k == 6 {
        ColourField::RamColor
    } else if k == 7 {
        ColourField::SwapColor
    } else if k == 8 {
        ColourField::RxColor
    } else if k == 9 {
        ColourField::TxColor
    } else if k == 10 {
        ColourField::TableHeaderColor
    } else if k == 11 {
        ColourField::SelectedTextColor
    } else if k == 12 {
        ColourField::SelectedBgColor
    } else if k == 13 {
        ColourField::WidgetTitleColor
    } else if k == 14 {
        ColourField::GraphColor
    } else {
        ColourField::BatteryColors
    }
}

/// The setting holds a list of colours.
pub open spec fn is_list_field(field: ColourField) -> bool {
    field == ColourField::CpuCoreColors || field == ColourField::BatteryColors
}

/// What the configuration writes for a setting of one colour.
pub open spec fn config_text(config: ConfigColours, field: ColourField) -> Option<String> {
    match field {
        ColourField::BorderColor => config.border_color,
        ColourField::HighlightedBorderColor => config.highlighted_border_color,
        ColourField::TextColor => config.text_color,
        ColourField::AvgCpuColor => config.avg_cpu_color,
        ColourField::AllCpuColor => config.all_cpu_color,
        ColourField::RamColor => config.ram_color,
        ColourField::SwapColor => config.swap_color,
        ColourField::RxColor => config.rx_color,
        ColourField::TxColor => config.tx_color,
        ColourField::TableHeaderColor => config.table_header_color,
        ColourField::SelectedTextColor => config.selected_text_color,
        ColourField::SelectedBgColor => config.selected_bg_color,
        ColourField::WidgetTitleColor => config.widget_title_color,
        ColourField::GraphColor => config.graph_color,
        _ => None,
    }
}

/// What the configuration writes for a setting of a list of colours.
pub open spec fn config_texts(config: ConfigColours, field: ColourField) -> Option<Vec<String>> {
    match field {
        ColourField::CpuCoreColors => config.cpu_core_colors,
        ColourField::BatteryColors => config.battery_colors,
        _ => None,
    }
}

/// The colours with one colour set.
pub open spec fn with_colour(colours: ColoursView, field: ColourField, colour: Colour)
    -> ColoursView {
    match field {
        ColourField::BorderColor => ColoursView { border: colour, ..colours },
        ColourField::HighlightedBorderColor => ColoursView { highlighted_border: colour, ..colours },
        ColourField::TextColor => ColoursView { text: colour, ..colours },
        ColourField::AvgCpuColor => ColoursView { avg_cpu: colour, ..colours },
        ColourField::AllCpuColor => ColoursView { all_cpu: colour, ..colours },
        ColourField::RamColor => ColoursView { ram: colour, ..colours },
        ColourField::SwapColor => ColoursView { swap: colour, ..colours },
        ColourField::RxColor => ColoursView { rx: colour, ..colours },
        ColourField::TxColor => ColoursView { tx: colour, ..colours },
        ColourField::TableHeaderColor => ColoursView { table_header: colour, ..colours },
        ColourField::SelectedTextColor => ColoursView { selected_text: colour, ..colours },
        ColourField::SelectedBgColor => ColoursView { selected_bg: colour, ..colours },
        ColourField::WidgetTitleColor => ColoursView { widget_title: colour, ..colours },
        ColourField::GraphColor => ColoursView { graph: colour, ..colours },
        _ => colours,
    }
}

/// The colours with one list of colours set.
pub open spec fn with_colour_list(colours: ColoursView, field: ColourField, list: Seq<Colour>)
    -> ColoursView {
    match field {
        ColourField::CpuCoreColors => ColoursView { cpu_core: list, ..colours },
        ColourField::BatteryColors => ColoursView { battery: list, ..colours },
        _ => colours,
    }
}

/// The colours that a list of texts stands for; none where one of the texts
/// stands for no colour.
pub open spec fn colours_of(texts: Seq<String>) -> Option<Seq<Colour>>
    decreases texts.len(),
{
    if texts.len() == 0 {
        Some(Seq::empty())
    } else {
        match (colours_of(texts.drop_last()), colour_of(texts.last()@)) {
            (Some(earlier), Some(colour)) => Some(earlier.push(colour)),
            _ => None,
        }
    }
}

/// The colours after one setting of the configuration has been applied: as
/// they are where the configuration does not write the setting; none where
/// what it writes stands for no colour.
pub open spec fn with_field(colours: ColoursView, config: ConfigColours, field: ColourField)
    -> Option<ColoursView> {
    if is_list_field(field) {
        match config_texts(config, field) {
            None => Some(colours),
            Some(texts) => match colours_of(texts@) {
                Some(list) => Some(with_colour_list(colours, field, list)),
                None => None,
            },
        }
    } else {
        match config_text(config, field) {
            None => Some(colours),
            Some(text) => match colour_of(text@) {
                Some(colour) => Some(with_colour(colours, field, colour)),
                None => None,
            },
        }
    }
}

/// The colours after the settings from the `k`-th on have been applied in
/// order, and the setting at which that stopped: the first whose text
/// stands for no colour. The settings before it have taken effect.
pub open spec fn apply_from(colours: ColoursView, config: ConfigColours, k: nat) -> (
    ColoursView,
    Option<ColourField>,
)
    decreases COLOUR_FIELDS - k,
{
    if k >= COLOUR_FIELDS {
        (colours, None)
    } else {
        match with_field(colours, config, field_at(k)) {
            Some(next) => apply_from(next, config, k + 1),
            None => (colours, Some(field_at(k))),
        }
    }
}

/// The colours after a configuration has been applied, and the setting at
/// which that stopped.
pub open spec fn configured(colours: ColoursView, config: Config) -> (
    ColoursView,
    Option<ColourField>,
) {
    match config.colors {
        Some(settings) => apply_from(colours, settings, 0),
        None => (colours, None),
    }
}

impl CanvasColours {
    /// The colours before any configuration: the terminal's own.
    pub fn new() -> (colours: CanvasColours)
        ensures
            colours@.border == Colour::Named(NamedColour::Reset),
            colours@.highlighted_border == Colour::Named(NamedColour::Reset),
            colours@.text == Colour::Named(NamedColour::Reset),
            colours@.avg_cpu == Colour::Named(NamedColour::Reset),
            colours@.all_cpu == Colour::Named(NamedColour::Reset),
            colours@.cpu_core.len() == 0,
            colours@.ram == Colour::Named(NamedColour::Reset),
            colours@.swap == Colour::Named(NamedColour::Reset),
            colours@.rx == Colour::Named(NamedColour::Reset),
            colours@.tx == Colour::Named(NamedColour::Reset),
            colours@.table_header == Colour::Named(NamedColour::Reset),
            colours@.selected_text == Colour::Named(NamedColour::Reset),
            colours@.selected_bg == Colour::Named(NamedColour::Reset),
            colours@.widget_title == Colour::Named(NamedColour::Reset),
            colours@.graph == Colour::Named(NamedColour::Reset),
            colours@.battery.len() == 0,
    {
        CanvasColours {
            border: Colour::Named(NamedColour::Reset),
            highlighted_border: Colour::Named(NamedColour::Reset),
            text: Colour::Named(NamedColour::Reset),
            avg_cpu: Colour::Named(NamedColour::Reset),
            all_cpu: Colour::Named(NamedColour::Reset),
            cpu_core: Vec::new(),
            ram: Colour::Named(NamedColour::Reset),
            swap: Colour::Named(NamedColour::Reset),
            rx: Colour::Named(NamedColour::Reset),
            tx: Colour::Named(NamedColour::Reset),
            table_header: Colour::Named(NamedColour::Reset),
            selected_text: Colour::Named(NamedColour::Reset),
            selected_bg: Colour::Named(NamedColour::Reset),
            widget_title: Colour::Named(NamedColour::Reset),
            graph: Colour::Named(NamedColour::Reset),
            battery: Vec::new(),
        }
    }

    fn set_colour(&mut self, field: ColourField, colour: Colour)
        ensures
            final(self)@ == with_colour(old(self)@, field, colour),
    {
        match field {
            ColourField::BorderColor => {
                self.border = colour;
            },
            ColourField::HighlightedBorderColor => {
                self.highlighted_border = colour;
            },
            ColourField::TextColor => {
                self.text = colour;
            },
            ColourField::AvgCpuColor => {
                self.avg_cpu = colour;
            },
            ColourField::AllCpuColor => {
                self.all_cpu = colour;
            },
            ColourField::RamColor => {
                self.ram = colour;
            },
            ColourField::SwapColor => {
                self.swap = colour;
            },
            ColourField::RxColor => {
                self.rx = colour;
            },
            ColourField::TxColor => {
                self.tx = colour;
            },
            ColourField::TableHeaderColor => {
                self.table_header = colour;
            },
            ColourField::SelectedTextColor => {
                self.selected_text = colour;
            },
            ColourField::SelectedBgColor => {
                self.selected_bg = colour;
            },
            ColourField::WidgetTitleColor => {
                self.widget_title = colour;
            },
            ColourField::GraphColor => {
                self.graph = colour;
            },
            _ => {},
        }
    }

    fn set_colour_list(&mut self, field: ColourField, list: Vec<Colour>)
        ensures
            final(self)@ == with_colour_list(old(self)@, field, list@),
    {
        match field {
            ColourField::CpuCoreColors => {
                self.cpu_core = list;
            },
            ColourField::BatteryColors => {
                self.battery = list;
            },
            _ => {},
        }
    }

    /// Applies one setting of the configuration. Where what the
    /// configuration writes stands for no colour, the colours stay as they
    /// are and the call fails.
    pub fn set_field(&mut self, config: &ConfigColours, field: ColourField) -> (done: bool)
        ensures
            match with_field(old(self)@, *config, field) {
                Some(colours) => done && final(self)@ == colours,
                None => !done && final(self)@ == old(self)@,
            },
    {
        match field {
            ColourField::CpuCoreColors => self.set_list_field(field, &config.cpu_core_colors),
            ColourField::BatteryColors => self.set_list_field(field, &config.battery_colors),
            ColourField::BorderColor => self.set_one_field(field, &config.border_color),
            ColourField::HighlightedBorderColor => self.set_one_field(field, &config.highlighted_border_color),
            ColourField::TextColor => self.set_one_field(field, &config.text_color),
            ColourField::AvgCpuColor => self.set_one_field(field, &config.avg_cpu_color),
            ColourField::AllCpuColor => self.set_one_field(field, &config.all_cpu_color),
            ColourField::RamColor => self.set_one_field(field, &config.ram_color),
            ColourField::SwapColor => self.set_one_field(field, &config.swap_color),
            ColourField::RxColor => self.set_one_field(field, &config.rx_color),
            ColourField::TxColor => self.set_one_field(field, &config.tx_color),
            ColourField::TableHeaderColor => self.set_one_field(field, &config.table_header_color),
            ColourField::SelectedTextColor => self.set_one_field(field, &config.selected_text_color),
            ColourField::SelectedBgColor => self.set_one_field(field, &config.selected_bg_color),
            ColourField::WidgetTitleColor => self.set_one_field(field, &config.widget_title_color),
            ColourField::GraphColor => self.set_one_field(field, &config.graph_color),
        }
    }

    fn set_one_field(&mut self, field: ColourField, text: &Option<String>) -> (done: bool)
        requires
            !is_list_field(field),
        ensures
            match *text {
                None => done && final(self)@ == old(self)@,
                Some(t) => match colour_of(t@) {
                    Some(colour) => done && final(self)@ == with_colour(old(self)@, field, colour),
                    None => !done && final(self)@ == old(self)@,
                },
            },
    {
        match text {
            None => true,
            Some(t) => match get_colour_from_config(t.as_str()) {
                Some(colour) => {
                    self.set_colour(field, colour);
                    true
                },
                None => false,
            },
        }
    }

    fn set_list_field(&mut self, field: ColourField, texts: &Option<Vec<String>>) -> (done: bool)
        requires
            is_list_field(field),
        ensures
            match *texts {
                None => done && final(self)@ == old(self)@,
                Some(ts) => match colours_of(ts@) {
                    Some(list) => done && final(self)@ == with_colour_list(old(self)@, field, list),
                    None => !done && final(self)@ == old(self)@,
                },
            },
    {
        match texts {
            None => true,
            Some(ts) => match get_colours_from_config(ts) {
                Some(list) => {
                    self.set_colour_list(field, list);
                    true
                },
                None => false,
            },
        }
    }
}

proof fn lemma_colours_of_prefix(texts: Seq<String>, k: int)
    requires
        0 <= k <= texts.len(),
        colours_of(texts.take(k)) is None,
    ensures
        colours_of(texts) is None,
    decreases texts.len() - k,
{
    if k < texts.len() {
        assert(texts.take(k + 1).drop_last() =~= texts.take(k));
        lemma_colours_of_prefix(texts, k + 1);
    } else {
        assert(texts.take(k) =~= texts);
    }
}

/// Reads a list of colours as a configuration writes them: every text has
/// to stand for a colour.
pub fn get_colours_from_config(texts: &Vec<String>) -> (list: Option<Vec<Colour>>)
    ensures
        match list {
            Some(colours) => colours_of(texts@) == Some(colours@),
            None => colours_of(texts@) is None,
        },
{
    let mut colours: Vec<Colour> = Vec::new();
    let mut i: usize = 0;
    proof {
        assert(texts@.take(0) =~= Seq::<String>::empty());
    }
    while i < texts.len()
        invariant
            i <= texts.len(),
            colours_of(texts@.take(i as int)) == Some(colours@),
        decreases texts.len() - i,
    {
        proof {
            assert(texts@.take(i as int + 1).drop_last() =~= texts@.take(i as int));
            assert(texts@.take(i as int + 1).last() == texts@[i as int]);
        }
        match get_colour_from_config(texts[i].as_str()) {
            Some(colour) => {
                colours.push(colour);
            },
            None => {
                proof {
                    lemma_colours_of_prefix(texts@, i as int + 1);
                }
                return None;
            },
        }
        i = i + 1;
    }
    proof {
        assert(texts@.take(texts.len() as int) =~= texts@);
    }
    Some(colours)
}

fn field_of(k: usize) -> (field: ColourField)
    ensures
        field == field_at(k as nat),
{
    match k {
        0 => ColourField::BorderColor,
        1 => ColourField::HighlightedBorderColor,
        2 => ColourField::TextColor,
        3 => ColourField::AvgCpuColor,
        4 => ColourField::AllCpuColor,
        5 => ColourField::CpuCoreColors,
        6 => ColourField::RamColor,
        7 => ColourField::SwapColor,
        8 => ColourField::RxColor,
        9 => ColourField::TxColor,
        10 => ColourField::TableHeaderColor,
        11 => ColourField::SelectedTextColor,
        12 => ColourField::SelectedBgColor,
        13 => ColourField::WidgetTitleColor,
        14 => ColourField::GraphColor,
        _ => ColourField::BatteryColors,
    }
}

/// Applies the colour settings of a configuration to the painter, in the
/// order of the settings. The first setting whose text stands for no colour
/// ends this with the error that names it; the settings before it have
/// taken effect. A configuration without colour settings changes nothing.
pub fn generate_config_colours(config: &Config, painter: &mut Painter) -> (result: Result<
    (),
    ConfigError,
>)
    ensures
        final(painter).colours@ == configured(old(painter).colours@, *config).0,
        result == match configured(old(painter).colours@, *config).1 {
            None => Ok::<(), ConfigError>(()),
            Some(field) => Err::<(), ConfigError>(ConfigError::InvalidColour(field)),
        },
{
    match &config.colors {
        None => Ok(()),
        Some(settings) => {
            let mut k: usize = 0;
            while k < COLOUR_FIELDS
                invariant
                    k <= COLOUR_FIELDS,
                    config.colors == Some(*settings),
                    apply_from(old(painter).colours@, *settings, 0) == apply_from(
                        painter.colours@,
                        *settings,
                        k as nat,
                    ),
                decreases COLOUR_FIELDS - k,
            {
                let field = field_of(k);
                if !painter.colours.set_field(settings, field) {
                    return Err(ConfigError::InvalidColour(field));
                }
                k = k + 1;
            }
            Ok(())
        },
    }
}

/// Checks the refresh rate that the command line asks for, in
/// milliseconds: it has to be at least the minimum and to fit in 64 bits.
pub fn validate_refresh_rate(rate: u128) -> (result: Result<u64, ConfigError>)
    ensures
        result == if rate < MINIMUM_REFRESH_RATE_IN_MILLISECONDS {
            Err::<u64, ConfigError>(ConfigError::RefreshRateTooSmall)
        } else if rate > u64::MAX {
            Err::<u64, ConfigError>(ConfigError::RefreshRateTooLarge)
        } else {
            Ok::<u64, ConfigError>(rate as u64)
        },
{
    if rate < MINIMUM_REFRESH_RATE_IN_MILLISECONDS as u128 {
        Err(ConfigError::RefreshRateTooSmall)
    } else if rate > u64::MAX as u128 {
        Err(ConfigError::RefreshRateTooLarge)
    } else {
        Ok(rate as u64)
    }
}

/// Where the configuration file is taken from.
#[derive(Clone, Copy, Debug, PartialEq, Eq, Structural)]
pub enum ConfigLocation {
    /// The path that the command line gives.
    Given,
    /// The file below `.config` in the home directory.
    HomeConfig,
    /// The file below the platform's configuration directory.
    ConfigDir,
    /// There is no place to take it from.
    Nowhere,
}

/// What is known of the places where a configuration file may lie.
#[derive(Clone, Copy, Debug, PartialEq, Eq, Structural)]
pub struct ConfigPlaces {
    /// The command line gives a path.
    pub is_given: bool,
    /// The platform is Windows.
    pub is_windows: bool,
    /// The home directory is known.
    pub has_home_dir: bool,
    /// A file lies below `.config` in the home directory.
    pub home_config_exists: bool,
    /// The platform's configuration directory is known.
    pub has_config_dir: bool,
}

/// The place of the configuration file. A given path goes first. Windows
/// has the configuration directory only. Elsewhere a file that already
/// lies below `.config` in the home directory is kept in use, and the
/// configuration directory serves otherwise; without a home directory there
/// is no place.
pub open spec fn chosen_location(places: ConfigPlaces) -> ConfigLocation {
    if places.is_given {
        ConfigLocation::Given
    } else if places.is_windows {
        if places.has_config_dir {
            ConfigLocation::ConfigDir
        } else {
            ConfigLocation::Nowhere
        }
    } else if places.has_home_dir {
        if places.home_config_exists {
            ConfigLocation::HomeConfig
        } else if places.has_config_dir {
            ConfigLocation::ConfigDir
        } else {
            ConfigLocation::Nowhere
        }
    } else {
        ConfigLocation::Nowhere
    }
}

/// Chooses the place of the configuration file.
pub fn choose_config_location(places: ConfigPlaces) -> (location: ConfigLocation)
    ensures
        location == chosen_location(places),
{
    if places.is_given {
        ConfigLocation::Given
    } else if places.is_windows {
        if places.has_config_dir {
            ConfigLocation::ConfigDir
        } else {
            ConfigLocation::Nowhere
        }
    } else if places.has_home_dir {
        if places.home_config_exists {
            ConfigLocation::HomeConfig
        } else if places.has_config_dir {
            ConfigLocation::ConfigDir
        } else {
            ConfigLocation::Nowhere
        }
    } else {
        ConfigLocation::Nowhere
    }
}

} // verus!
