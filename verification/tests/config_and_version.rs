use indexmap::IndexSet;
use tui::layout::Constraint as TuiConstraint;
use tui::style::{Color, Modifier};
use xplr_config::config::Config;
use xplr_config::general::{GeneralConfig, NodeSorterApplicable};
use xplr_config::modes::ModesConfig;
use xplr_config::node_types::{NodeTypeConfig, NodeTypesConfig};
use xplr_config::ordered_map::OrderedMap;
use xplr_config::style::Style;
use xplr_config::ui::{
    Constraint, LogsConfig, SortAndFilterUi, SortDirectionIdentifiersUi, TableConfig,
    TableRowConfig, UiConfig, UiElement,
};
use xplr_config::version::{parse_version, VersionError};

fn versioned(version: &str) -> Config {
    Config {
        version: version.to_string(),
        general: GeneralConfig::default(),
        node_types: NodeTypesConfig::default(),
        modes: ModesConfig::default(),
    }
}

fn element(format: Option<&str>, fg: Option<Color>) -> UiElement {
    UiElement { format: format.map(|f| f.to_string()), style: Style { fg, ..Style::default() } }
}

#[test]
fn compatible_versions() {
    for v in ["v0.5.0", "v0.5.1", "v0.5.2", "v0.5.3", "v0.5.4"] {
        assert_eq!(versioned(v).is_compatible(), Ok(true), "version {}", v);
    }
    for v in ["v0.5.5", "v0.6.0", "v0.4.9", "v1.5.0", "v0.5.6", "v0.0.0", "v65535.5.0"] {
        assert_eq!(versioned(v).is_compatible(), Ok(false), "version {}", v);
    }
}

#[test]
fn versions_that_cannot_be_read() {
    assert_eq!(versioned("v0.5").is_compatible(), Err(VersionError::Empty));
    assert_eq!(versioned("0.5.0").is_compatible(), Err(VersionError::Empty));
    assert_eq!(versioned("").is_compatible(), Err(VersionError::Empty));
    assert_eq!(versioned("v").is_compatible(), Err(VersionError::Empty));
    assert_eq!(versioned("v0.5.").is_compatible(), Err(VersionError::Empty));
    assert_eq!(versioned("v.5.0").is_compatible(), Err(VersionError::Empty));
    assert_eq!(versioned("v0..0").is_compatible(), Err(VersionError::Empty));
    assert_eq!(versioned("v0.5.x").is_compatible(), Err(VersionError::InvalidDigit));
    assert_eq!(versioned("v0.5.0-beta").is_compatible(), Err(VersionError::InvalidDigit));
    assert_eq!(versioned("va.5.0").is_compatible(), Err(VersionError::InvalidDigit));
    assert_eq!(versioned("v-0.5.0").is_compatible(), Err(VersionError::InvalidDigit));
    assert_eq!(versioned("v0.+.0").is_compatible(), Err(VersionError::InvalidDigit));
    assert_eq!(versioned("v0. 5.0").is_compatible(), Err(VersionError::InvalidDigit));
    assert_eq!(versioned("V0.5.0").is_compatible(), Err(VersionError::Empty));
    assert_eq!(versioned("v0.5.65536").is_compatible(), Err(VersionError::Overflow));
    assert_eq!(versioned("v0.70000.1").is_compatible(), Err(VersionError::Overflow));
    assert_eq!(versioned("v0.5.99999x").is_compatible(), Err(VersionError::Overflow));
    assert_eq!(versioned("v0.5.9x9999").is_compatible(), Err(VersionError::InvalidDigit));
    assert_eq!(versioned("vx.5").upgrade_notification(), Err(VersionError::InvalidDigit));
    assert_eq!(versioned("v0.5").upgrade_notification(), Err(VersionError::Empty));
    assert_eq!(versioned("0.5.0").upgrade_notification(), Err(VersionError::Empty));
}

#[test]
fn the_first_unreadable_number_decides() {
    assert_eq!(parse_version("vx.99999.").err(), Some(VersionError::InvalidDigit));
    assert_eq!(parse_version("v1.99999.").err(), Some(VersionError::Overflow));
    assert_eq!(parse_version("v1.2.").err(), Some(VersionError::Empty));
    assert_eq!(parse_version("v.x.99999").err(), Some(VersionError::Empty));
}

#[test]
fn versions_are_read_as_three_numbers() {
    assert_eq!(versioned("v0.5.4").parsed_version(), Ok((0, 5, 4)));
    assert_eq!(versioned("v12.345.65535").parsed_version(), Ok((12, 345, 65535)));
    assert_eq!(versioned("v00.05.004").parsed_version(), Ok((0, 5, 4)));
    assert_eq!(versioned("v+1.+2.+3").parsed_version(), Ok((1, 2, 3)));
    assert_eq!(versioned("v1.2.3.4").parsed_version(), Ok((1, 2, 3)));
    assert_eq!(versioned("v1.2.3.").parsed_version(), Ok((1, 2, 3)));
    assert_eq!(versioned("v1.2.3.x").parsed_version(), Ok((1, 2, 3)));
    assert_eq!(parse_version("v0.5.0"), Ok((0, 5, 0)));
}

fn std_version(text: &str) -> Option<(u16, u16, u16)> {
    let mut pieces = text.strip_prefix('v').unwrap_or_default().split('.');
    let major = pieces.next().unwrap_or_default().parse::<u16>().ok()?;
    let minor = pieces.next().unwrap_or_default().parse::<u16>().ok()?;
    let bugfix = pieces.next().unwrap_or_default().parse::<u16>().ok()?;
    Some((major, minor, bugfix))
}

#[test]
fn versions_agree_with_the_standard_parsers() {
    let samples = [
        "", "v", "v.", "v..", "v...", "v0", "v0.", "v0.5", "v0.5.", "v0.5.0", "v0.5.0.", "0.5.0",
        "vv0.5.0", "v0.5.0.1", "v+0.5.0", "v0.+5.0", "v0.5.+", "v-0.5.0", "v0.5.-0", "v65535.0.0",
        "v65536.0.0", "v0.065535.0", "v0.0.0000065536", "v0.5.0 ", " v0.5.0", "v0,5,0", "v0.5.٣",
        "v١.٢.٣", "v0.5.0\n", "v1e3.0.0", "v0x1.0.0", "v999999999999999999999.0.0", "v++1.0.0",
        "v+.0.0", "v1.2.3.4.5", "é0.5.0", "v0.5.é",
    ];
    for s in samples {
        assert_eq!(parse_version(s).ok(), std_version(s), "input {:?}", s);
    }
}

#[test]
fn upgrade_notifications() {
    assert_eq!(versioned("v0.5.5").upgrade_notification(), Ok(None));
    assert_eq!(
        versioned("v0.5.4").upgrade_notification(),
        Ok(Some("App version updated. Significant reduction in CPU usage"))
    );
    assert_eq!(
        versioned("v0.5.3").upgrade_notification(),
        Ok(Some("App version updated. Fixed exit on permission denied"))
    );
    assert_eq!(
        versioned("v0.5.2").upgrade_notification(),
        Ok(Some("App version updated. Now pwd is synced with your terminal session"))
    );
    assert_eq!(
        versioned("v0.5.1").upgrade_notification(),
        Ok(Some("App version updated. Now follow symlinks using 'gf'"))
    );
    let generic = "App version updated. New: added sort and filter support and some hacks: https://github.com/sayanarijit/xplr/wiki/Hacks";
    for v in ["v0.6.0", "v0.5.0", "v0.5.6", "v1.0.0", "v0.4.5", "v9.9.9"] {
        assert_eq!(versioned(v).upgrade_notification(), Ok(Some(generic)), "version {}", v);
    }
}

#[test]
fn notifications_differ_and_are_not_empty() {
    let mut seen: Vec<&str> = Vec::new();
    for v in ["v0.5.1", "v0.5.2", "v0.5.3", "v0.5.4", "v0.6.0"] {
        let text = versioned(v).upgrade_notification().unwrap().unwrap();
        assert!(!text.is_empty());
        assert!(!seen.contains(&text));
        seen.push(text);
    }
}

#[test]
fn the_newest_version_is_silent_but_not_compatible() {
    let c = versioned("v0.5.5");
    assert_eq!(c.is_compatible(), Ok(false));
    assert_eq!(c.upgrade_notification(), Ok(None));
}

#[test]
fn style_extend_prefers_what_the_overlay_sets() {
    let base = Style {
        fg: Some(Color::Red),
        bg: Some(Color::Black),
        add_modifier: Some(Modifier::BOLD),
        sub_modifier: None,
    };
    let over = Style {
        fg: Some(Color::Rgb(1, 2, 3)),
        bg: None,
        add_modifier: None,
        sub_modifier: Some(Modifier::DIM | Modifier::ITALIC),
    };
    let r = base.extend(over);
    assert_eq!(r.fg, Some(Color::Rgb(1, 2, 3)));
    assert_eq!(r.bg, Some(Color::Black));
    assert_eq!(r.add_modifier, Some(Modifier::BOLD));
    assert_eq!(r.sub_modifier, Some(Modifier::DIM | Modifier::ITALIC));
    assert_eq!(base.extend(base), base);
    assert_eq!(base.extend(Style::default()), base);
    assert_eq!(Style::default().extend(over), over);
}

#[test]
fn ui_element_and_ui_config_extend() {
    let base = element(Some("base"), Some(Color::Red));
    let over = element(None, Some(Color::Blue));
    assert_eq!(base.clone().extend(over), element(Some("base"), Some(Color::Blue)));
    let over = element(Some("over"), None);
    assert_eq!(base.clone().extend(over), element(Some("over"), Some(Color::Red)));

    let base = UiConfig {
        prefix: Some("[".to_string()),
        suffix: None,
        style: Style { bg: Some(Color::Gray), ..Style::default() },
    };
    let over = UiConfig {
        prefix: None,
        suffix: Some("]".to_string()),
        style: Style { fg: Some(Color::Green), ..Style::default() },
    };
    let r = base.clone().extend(over);
    assert_eq!(r.prefix, Some("[".to_string()));
    assert_eq!(r.suffix, Some("]".to_string()));
    assert_eq!(r.style.fg, Some(Color::Green));
    assert_eq!(r.style.bg, Some(Color::Gray));
    assert_eq!(base.clone().extend(base.clone()), base);
}

#[test]
fn table_extend_replaces_lists_whole() {
    let base = TableConfig {
        header: TableRowConfig {
            cols: Some(vec![element(Some("a"), None), element(Some("b"), None)]),
            style: Style::default(),
            height: Some(1),
        },
        row: TableRowConfig::default(),
        style: Style { fg: Some(Color::White), ..Style::default() },
        tree: Some((element(Some("├"), None), element(Some("│"), None), element(Some("└"), None))),
        col_spacing: Some(3),
        col_widths: Some(vec![Constraint::Percentage(50), Constraint::Min(1)]),
    };
    let over = TableConfig {
        header: TableRowConfig {
            cols: Some(vec![element(Some("only"), None)]),
            style: Style::default(),
            height: None,
        },
        row: TableRowConfig { cols: None, style: Style::default(), height: Some(2) },
        style: Style::default(),
        tree: None,
        col_spacing: None,
        col_widths: Some(vec![Constraint::Length(9)]),
    };
    let r = base.clone().extend(over);
    assert_eq!(r.header.cols, Some(vec![element(Some("only"), None)]));
    assert_eq!(r.header.height, Some(1));
    assert_eq!(r.row.height, Some(2));
    assert_eq!(r.row.cols, None);
    assert_eq!(r.style.fg, Some(Color::White));
    assert_eq!(r.tree, base.tree);
    assert_eq!(r.col_spacing, Some(3));
    assert_eq!(r.col_widths, Some(vec![Constraint::Length(9)]));
    assert_eq!(base.clone().extend(base.clone()), base);
}

#[test]
fn logs_and_sort_direction_extend_part_by_part() {
    let base = LogsConfig {
        info: element(Some("i"), None),
        success: element(Some("s"), None),
        error: element(Some("e"), Some(Color::Red)),
    };
    let over = LogsConfig {
        info: element(Some("I"), None),
        success: element(None, Some(Color::Green)),
        error: UiElement::default(),
    };
    let r = base.clone().extend(over);
    assert_eq!(r.info, element(Some("I"), None));
    assert_eq!(r.success, element(Some("s"), Some(Color::Green)));
    assert_eq!(r.error, base.error);

    let base = SortDirectionIdentifiersUi {
        forward: element(Some(">"), None),
        reverse: element(Some("<"), None),
    };
    let over = SortDirectionIdentifiersUi {
        forward: element(Some("↓"), None),
        reverse: UiElement::default(),
    };
    let r = base.clone().extend(over);
    assert_eq!(r.forward, element(Some("↓"), None));
    assert_eq!(r.reverse, element(Some("<"), None));
}

#[test]
fn sort_and_filter_marks_are_united_and_laid_onto_each_other() {
    let mut base = SortAndFilterUi::default();
    base.separator = element(Some(" > "), None);
    base.sorter_identifiers.insert("by_size".to_string(), element(Some("size"), Some(Color::Red)));
    base.sorter_identifiers.insert("by_extension".to_string(), element(Some("ext"), None));
    base.filter_identifiers.insert("relative_path_is".to_string(), element(Some("rel=="), None));
    let mut over = SortAndFilterUi::default();
    over.sorter_identifiers.insert("by_size".to_string(), element(None, Some(Color::Blue)));
    over.filter_identifiers.insert("relative_path_is_not".to_string(), element(Some("rel!="), None));
    let r = base.clone().extend(over);
    assert_eq!(r.separator, element(Some(" > "), None));
    assert_eq!(r.sorter_identifiers.len(), 2);
    assert_eq!(r.sorter_identifiers.get("by_size"), Some(&element(Some("size"), Some(Color::Blue))));
    assert_eq!(r.sorter_identifiers.get("by_extension"), Some(&element(Some("ext"), None)));
    assert_eq!(r.filter_identifiers.len(), 2);
    assert_eq!(base.clone().extend(base.clone()), base);
}

#[test]
fn constraint_default_and_layout() {
    assert_eq!(Constraint::default(), Constraint::Min(1));
    assert_eq!(Constraint::Percentage(40).into_layout(), TuiConstraint::Percentage(40));
    assert_eq!(Constraint::Ratio(1, 3).into_layout(), TuiConstraint::Ratio(1, 3));
    assert_eq!(Constraint::Length(7).into_layout(), TuiConstraint::Length(7));
    assert_eq!(Constraint::Max(9).into_layout(), TuiConstraint::Max(9));
    assert_eq!(Constraint::Min(2).into_layout(), TuiConstraint::Min(2));
}

fn node_type(fg: Color, meta: &[(&str, &str)]) -> NodeTypeConfig {
    let mut m: OrderedMap<String> = OrderedMap::new();
    for (k, v) in meta {
        m.insert(k.to_string(), v.to_string());
    }
    NodeTypeConfig { style: Style { fg: Some(fg), ..Style::default() }, meta: m }
}

#[test]
fn node_types_extend_entry_by_entry() {
    let mut base = NodeTypesConfig::default();
    base.directory = node_type(Color::Blue, &[("icon", "d")]);
    base.extension.insert("rs".to_string(), node_type(Color::Red, &[("icon", "r"), ("lang", "rust")]));
    base.extension.insert("md".to_string(), node_type(Color::White, &[]));
    let mut over = NodeTypesConfig::default();
    over.directory.meta.insert("icon".to_string(), "D".to_string());
    over.directory.meta.insert("kind".to_string(), "dir".to_string());
    over.extension.insert("rs".to_string(), {
        let mut m: OrderedMap<String> = OrderedMap::new();
        m.insert("icon".to_string(), "R".to_string());
        NodeTypeConfig { style: Style { bg: Some(Color::Black), ..Style::default() }, meta: m }
    });
    over.special.insert("Cargo.toml".to_string(), node_type(Color::Yellow, &[]));
    let r = base.clone().extend(over);
    assert_eq!(r.directory.style.fg, Some(Color::Blue));
    assert_eq!(r.directory.meta.get("icon"), Some(&"D".to_string()));
    assert_eq!(r.directory.meta.get("kind"), Some(&"dir".to_string()));
    let rs = r.extension.get("rs").unwrap();
    assert_eq!(rs.style.fg, Some(Color::Red));
    assert_eq!(rs.style.bg, Some(Color::Black));
    assert_eq!(rs.meta.get("icon"), Some(&"R".to_string()));
    assert_eq!(rs.meta.get("lang"), Some(&"rust".to_string()));
    assert_eq!(r.extension.get("md"), base.extension.get("md"));
    assert_eq!(r.special.len(), 1);
    assert_eq!(r.mime_essence.len(), 0);
    assert_eq!(base.clone().extend(base.clone()), base);
}

fn sorting(items: &[(&str, bool)]) -> IndexSet<NodeSorterApplicable> {
    items
        .iter()
        .map(|(s, r)| NodeSorterApplicable { sorter: s.to_string(), reverse: *r })
        .collect()
}

fn baseline() -> Config {
    let mut c = versioned("v0.5.5");
    c.general.show_hidden = Some(false);
    c.general.read_only = Some(false);
    c.general.cursor = element(Some("█"), Some(Color::Cyan));
    c.general.default_ui.prefix = Some("  ".to_string());
    c.general.initial_sorting = Some(sorting(&[("by_is_dir", true), ("by_relative_path", false)]));
    c.general.table.col_widths = Some(vec![Constraint::Percentage(10), Constraint::Percentage(90)]);
    c.general.sort_and_filter_ui.sorter_identifiers.insert("by_size".to_string(), element(Some("size"), None));
    c.node_types.directory = node_type(Color::Blue, &[("icon", "d")]);
    c.node_types.mime_essence.insert("text/plain".to_string(), node_type(Color::White, &[]));
    c.modes.builtin.default.name = "default".to_string();
    c.modes.builtin.default.extra_help = Some("welcome".to_string());
    c.modes.custom.insert("mine".to_string(), xplr_config::mode::Mode::default());
    c
}

#[test]
fn extending_the_baseline_by_itself_reproduces_it() {
    let b = baseline();
    assert_eq!(b.clone().extended(b.clone()), b);
    let empty = versioned("v0.5.5");
    assert_eq!(empty.clone().extended(empty.clone()), empty);
}

#[test]
fn extended_keeps_the_overlay_version_and_prefers_its_settings() {
    let mut user = versioned("v0.5.0");
    user.general.show_hidden = Some(true);
    user.general.initial_sorting = Some(sorting(&[("by_size", false)]));
    user.general.cursor = element(None, Some(Color::Red));
    user.modes.builtin.default.name = "ignored".to_string();
    user.modes.builtin.default.help = Some("my help".to_string());
    let r = user.extended(baseline());
    assert_eq!(r.version, "v0.5.0");
    assert_eq!(r.general.show_hidden, Some(true));
    assert_eq!(r.general.read_only, Some(false));
    assert_eq!(r.general.initial_sorting, Some(sorting(&[("by_size", false)])));
    assert_eq!(r.general.cursor, element(Some("█"), Some(Color::Red)));
    assert_eq!(r.general.default_ui.prefix, Some("  ".to_string()));
    assert_eq!(r.general.table.col_widths, baseline().general.table.col_widths);
    assert_eq!(r.node_types, baseline().node_types);
    assert_eq!(r.modes.builtin.default.name, "default");
    assert_eq!(r.modes.builtin.default.help, Some("my help".to_string()));
    assert_eq!(r.modes.builtin.default.extra_help, Some("welcome".to_string()));
    assert_eq!(r.modes.custom.len(), 1);
}

#[test]
fn general_extend_is_right_biased_for_plain_settings() {
    let base = baseline().general;
    let r = base.clone().extend(GeneralConfig::default());
    assert_eq!(r, base);
    let mut over = GeneralConfig::default();
    over.read_only = Some(true);
    let r = base.clone().extend(over);
    assert_eq!(r.read_only, Some(true));
    assert_eq!(r.show_hidden, Some(false));
    assert_eq!(r.initial_sorting, base.initial_sorting);
}
