use sample_terminal::cells::Color;
use sample_terminal::terminal_buffer::color::{
    ansi_16_color, ansi_256_color, apply_graphics_rendition, parse_extended_color,
};
use sample_terminal::terminal_buffer::parser::{param_or, parse_csi, parse_csi_params};
use sample_terminal::terminal_buffer::types::CellAttributes;

#[test]
fn csi_parameters_split_on_semicolons() {
    assert_eq!(parse_csi(b"2;4"), (false, vec![Some(2), Some(4)]));
    assert_eq!(parse_csi(b"?25"), (true, vec![Some(25)]));
    assert_eq!(parse_csi(b";5"), (false, vec![None, Some(5)]));
    assert_eq!(parse_csi(b"1;"), (false, vec![Some(1), None]));
    assert_eq!(parse_csi(b""), (false, vec![]));
    assert_eq!(parse_csi(b"?"), (true, vec![]));
}

#[test]
fn csi_parameters_ignore_other_bytes_and_overflow() {
    assert_eq!(parse_csi(b"1 2"), (false, vec![Some(12)]));
    assert_eq!(parse_csi(b">3"), (false, vec![Some(3)]));
    assert_eq!(
        parse_csi(b"99999999999999999999999;7"),
        (false, vec![None, Some(7)])
    );
}

#[test]
fn missing_parameters_take_the_default() {
    let params = vec![Some(0), None, Some(7)];
    assert_eq!(param_or(&params, 0, 1), 0);
    assert_eq!(param_or(&params, 1, 3), 3);
    assert_eq!(param_or(&params, 2, 1), 7);
    assert_eq!(param_or(&params, 5, 9), 9);
}

#[test]
fn palette_colors() {
    assert_eq!(
        ansi_16_color(3, true),
        Color::Ansi {
            index: 3,
            bright: true,
        }
    );
    assert_eq!(
        ansi_256_color(9),
        Color::Ansi {
            index: 1,
            bright: true,
        }
    );
    assert_eq!(
        ansi_256_color(16),
        Color::Cube {
            red_level: 0,
            green_level: 0,
            blue_level: 0,
        }
    );
    assert_eq!(
        ansi_256_color(231),
        Color::Cube {
            red_level: 5,
            green_level: 5,
            blue_level: 5,
        }
    );
    assert_eq!(
        ansi_256_color(110),
        Color::Cube {
            red_level: 2,
            green_level: 3,
            blue_level: 4,
        }
    );
    assert_eq!(ansi_256_color(255), Color::Gray { level: 23 });
}

#[test]
fn extended_colors_report_what_they_consume() {
    assert_eq!(
        parse_extended_color(&[Some(5), Some(300)]),
        Some((ansi_256_color(44), 2))
    );
    assert_eq!(
        parse_extended_color(&[Some(2), Some(10), Some(20), Some(30), Some(1)]),
        Some((
            Color::Rgb {
                red: 10,
                green: 20,
                blue: 30,
            },
            4
        ))
    );
    assert_eq!(parse_extended_color(&[Some(2), Some(10), Some(20)]), None);
    assert_eq!(parse_extended_color(&[Some(5), None]), None);
    assert_eq!(parse_extended_color(&[Some(7), Some(1)]), None);
    assert_eq!(parse_extended_color(&[]), None);
}

#[test]
fn graphics_rendition_folds_parameters_in_order() {
    let start = CellAttributes::initial_attributes();
    let out = apply_graphics_rendition(start, &[Some(31), Some(42), Some(0), Some(97)]);
    assert_eq!(
        out.fg,
        Color::Ansi {
            index: 7,
            bright: true,
        }
    );
    assert_eq!(out.bg, Color::DefaultBg);

    let skipped = apply_graphics_rendition(start, &[Some(38), Some(2), Some(1), Some(2), Some(3), Some(44)]);
    assert_eq!(
        skipped.fg,
        Color::Rgb {
            red: 1,
            green: 2,
            blue: 3,
        }
    );
    assert_eq!(
        skipped.bg,
        Color::Ansi {
            index: 4,
            bright: false,
        }
    );

    let unknown = apply_graphics_rendition(start, &[Some(1), Some(4), Some(38), Some(9)]);
    assert_eq!(unknown, start);
}

#[test]
fn parameter_strings_without_the_private_flag() {
    assert_eq!(parse_csi_params(b"1;2"), vec![Some(1), Some(2)]);
    assert_eq!(parse_csi_params(b"?5"), vec![Some(5)]);
    assert_eq!(parse_csi_params(b";;"), vec![None, None, None]);
    assert_eq!(parse_csi_params(b"abc"), vec![]);
}
