use colog::color::{level_color, level_color_of};
use colog::format::{
    default_format, default_level_color, default_level_token, default_prefix_token, format_line,
    CologStyle, DefaultCologStyle,
};
use colog::level::{Color, Level};

const LEVELS: [Level; 5] = [Level::Error, Level::Warn, Level::Info, Level::Debug, Level::Trace];

/// Removes every complete `ESC [ params m` sequence.
fn visible(s: &str) -> String {
    let chars: Vec<char> = s.chars().collect();
    let mut out = String::new();
    let mut i = 0;
    while i < chars.len() {
        if chars[i] == '\x1b' && i + 1 < chars.len() && chars[i + 1] == '[' {
            let mut j = i + 2;
            while j < chars.len() && (chars[j].is_ascii_digit() || chars[j] == ';') {
                j += 1;
            }
            if j < chars.len() && chars[j] == 'm' {
                i = j + 1;
                continue;
            }
        }
        out.push(chars[i]);
        i += 1;
    }
    out
}

struct ShortNames;

impl CologStyle for ShortNames {
    fn level_token(&self, level: &Level) -> &str {
        match level {
            Level::Error => "ERR",
            Level::Warn => "WRN",
            Level::Info => "INF",
            Level::Debug => "DBG",
            Level::Trace => "TRC",
        }
    }
}

#[test]
fn default_tokens_are_distinct_and_not_empty() {
    let tokens: Vec<&str> = LEVELS.iter().map(|l| DefaultCologStyle.level_token(l)).collect();
    assert_eq!(tokens, vec!["E", "W", "*", "D", "T"]);
    for (i, a) in tokens.iter().enumerate() {
        assert!(!a.is_empty());
        for b in &tokens[i + 1..] {
            assert_ne!(a, b);
        }
    }
    assert_eq!(default_level_token(&Level::Info), "*");
}

#[test]
fn default_prefix_holds_token() {
    for l in LEVELS.iter() {
        let p = DefaultCologStyle.prefix_token(l);
        let t = DefaultCologStyle.level_token(l);
        assert!(visible(&p).contains(t));
        assert_eq!(visible(&p), format!("[{}]", t));
    }
}

#[test]
fn colors_of_levels() {
    assert_eq!(level_color_of(&Level::Error), Color::Red);
    assert_eq!(level_color_of(&Level::Warn), Color::Yellow);
    assert_eq!(level_color_of(&Level::Info), Color::Green);
    assert_eq!(level_color_of(&Level::Debug), Color::Green);
    assert_eq!(level_color_of(&Level::Trace), Color::Magenta);
}

#[test]
fn format_line_replaces_each_newline() {
    assert_eq!(format_line("P", "<>", "a\nb\n"), "P a<>b<>\n");
    assert_eq!(format_line("P", "\n", "a\nb"), "P a\nb\n");
    assert_eq!(format_line("", "x", ""), " \n");
}

#[test]
fn error_message_line() {
    let out = DefaultCologStyle.format(&Level::Error, "error message");
    assert_eq!(visible(&out), "[E] error message\n");
}

#[test]
fn warn_message_line() {
    let out = DefaultCologStyle.format(&Level::Warn, "warn message");
    assert_eq!(visible(&out), "[W] warn message\n");
}

#[test]
fn info_multi_line() {
    let out = DefaultCologStyle.format(&Level::Info, "multi line demonstration\nhere");
    assert_eq!(visible(&out), "[*] multi line demonstration\n | here\n");
}

#[test]
fn trace_empty_message() {
    let out = DefaultCologStyle.format(&Level::Trace, "");
    assert_eq!(visible(&out), "[T] \n");
}

#[test]
fn debug_message_keeps_markup_inside() {
    let inner = DefaultCologStyle.level_color(&Level::Debug, "in");
    let out = DefaultCologStyle.format(&Level::Debug, &inner);
    assert_eq!(visible(&out), "[D] in\n");
}

#[test]
fn builders_and_init() {
    let _ = colog::basic_builder();
    let _ = colog::default_builder();
    colog::init();
    colog::init();
}

// The only test that changes colored's process-wide override, so that tests
// running in parallel never see it change under them.
#[test]
fn color_twice_keeps_text() {
    colored::control::set_override(true);
    for l in LEVELS.iter() {
        let once = DefaultCologStyle.level_color(l, "some text");
        let twice = DefaultCologStyle.level_color(l, &once);
        assert_ne!(once, "some text");
        assert_eq!(visible(&once), "some text");
        assert_eq!(visible(&twice), "some text");
        assert_eq!(ShortNames.level_color(l, "txt"), DefaultCologStyle.level_color(l, "txt"));
        assert_eq!(ShortNames.line_separator(), DefaultCologStyle.line_separator());
    }
    assert_eq!(default_level_color(&Level::Error, "x"), "\x1b[1;31mx\x1b[0m");
    assert_eq!(level_color(&Level::Trace, "x"), "\x1b[1;35mx\x1b[0m");
    assert_eq!(DefaultCologStyle.line_separator(), "\n\x1b[1;37m |\x1b[0m ");
    assert_eq!(
        ShortNames.prefix_token(&Level::Warn),
        "\x1b[1;34m[\x1b[0m\x1b[1;33mWRN\x1b[0m\x1b[1;34m]\x1b[0m"
    );
    colored::control::set_override(false);
    assert_eq!(default_level_color(&Level::Warn, "plain"), "plain");
    assert_eq!(DefaultCologStyle.format(&Level::Warn, "a\nb"), "[W] a\n | b\n");
    colored::control::unset_override();
}

#[test]
fn newlines_become_separators() {
    let sep = DefaultCologStyle.line_separator();
    assert_eq!(visible(&sep), "\n | ");
    assert!(sep.starts_with('\n'));
    let msg = "more\nmulti\nline\nhere\nhere";
    let out = DefaultCologStyle.format(&Level::Info, msg);
    assert!(out.ends_with('\n'));
    assert!(!out.ends_with("\n\n"));
    assert_eq!(out.matches('\n').count(), 5);
    assert_eq!(visible(&out).matches("\n | ").count(), 4);
    assert_eq!(visible(&out), "[*] more\n | multi\n | line\n | here\n | here\n");
    let trailing = DefaultCologStyle.format(&Level::Info, "end\n");
    assert!(!trailing.ends_with("\n\n"));
    assert_eq!(trailing.matches('\n').count(), 2);
}

#[test]
fn token_override_keeps_shape() {
    assert_eq!(visible(&ShortNames.format(&Level::Error, "boom")), "[ERR] boom\n");
    assert_eq!(visible(&ShortNames.prefix_token(&Level::Debug)), "[DBG]");
    assert_eq!(visible(&default_prefix_token(&ShortNames, &Level::Trace)), "[TRC]");
    assert_eq!(
        visible(&default_format(&ShortNames, &Level::Warn, "a\nb")),
        "[WRN] a\n | b\n"
    );
}
