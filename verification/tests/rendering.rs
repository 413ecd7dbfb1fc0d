use contribution_graph::colors::ColorScheme;
use contribution_graph::renderer::{shade_index, HexToRGB};

#[test]
fn shade_index_boundaries() {
    // Division-by-zero guard: an all-empty window always shades to the base.
    assert_eq!(shade_index(0, 0, 5), 0);
    assert_eq!(shade_index(5, 0, 5), 0);
    assert_eq!(shade_index(0, 100, 5), 0);
    assert_eq!(shade_index(100, 100, 5), 4);
}

#[test]
fn shade_index_rounds_up_and_stays_in_palette() {
    assert_eq!(shade_index(1, 100, 5), 1);
    assert_eq!(shade_index(25, 100, 5), 1);
    assert_eq!(shade_index(26, 100, 5), 2);
    assert_eq!(shade_index(50, 100, 5), 2);
    assert_eq!(shade_index(51, 100, 5), 3);
    assert_eq!(shade_index(75, 100, 5), 3);
    assert_eq!(shade_index(76, 100, 5), 4);
    for count in 0..=100 {
        let idx = shade_index(count, 100, 5);
        assert!(idx <= 4);
    }
}

#[test]
fn shade_index_clamps_out_of_range_counts() {
    assert_eq!(shade_index(200, 100, 5), 4);
    assert_eq!(shade_index(-3, 100, 5), 0);
    assert_eq!(shade_index(i64::MAX, i64::MAX, 5), 4);
    assert_eq!(shade_index(7, 7, 1), 0);
}

#[test]
fn hex_colors_become_rgb() {
    assert_eq!("#2ea043".to_string().to_rgb(), (0x2e, 0xa0, 0x43));
    assert_eq!("#eeeeee".to_string().to_rgb(), (0xee, 0xee, 0xee));
    assert_eq!("#04001b".to_string().to_rgb(), (0x04, 0x00, 0x1b));
    assert_eq!("ffffff".to_string().to_rgb(), (0xff, 0xff, 0xff));
    assert_eq!("##A1F1A8".to_string().to_rgb(), (0xa1, 0xf1, 0xa8));
}

#[test]
fn hex_color_bad_digits_read_as_zero() {
    assert_eq!("#zzga04".to_string().to_rgb(), (0, 0, 4));
}

#[test]
fn find_by_name_returns_named_scheme() {
    let s = ColorScheme::find_by_name("github").unwrap();
    assert_eq!(s.name, "github");
    assert_eq!(s.colors.len(), 5);
    assert_eq!(s.colors[0], "#eeeeee");
    assert_eq!(s.colors[1], "#2ea043");
    let s = ColorScheme::find_by_name("psychedelic").unwrap();
    assert_eq!(s.colors[4], "#faafe1");
    assert!(ColorScheme::find_by_name("no such scheme").is_none());
}

#[test]
fn get_color_falls_back_to_base() {
    let s = ColorScheme::find_by_name("blue").unwrap();
    assert_eq!(s.get_color(1), "#0d47a1");
    assert_eq!(s.get_color(4), "#bbdefb");
    assert_eq!(s.get_color(9), "#eeeeee");
}

#[test]
fn default_scheme_is_github() {
    let s = ColorScheme::default();
    assert_eq!(s.name, "github");
    assert_eq!(s.colors[2], "#3fb950");
}
