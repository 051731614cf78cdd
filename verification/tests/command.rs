use emotitle::command::{
    mode_from_emojis, parse_args, parse_optional_u32, parse_optional_usize, replace_colon_emoji,
    splice_shortcode, Command, Mode, Target,
};

fn map(pairs: &[(&str, &str)]) -> Vec<(String, String)> {
    pairs
        .iter()
        .map(|(k, v)| (k.to_string(), v.to_string()))
        .collect()
}

#[test]
fn replace_colon_emoji_with_shortcode() {
    assert_eq!(replace_colon_emoji("launch :rocket:"), "launch 🚀");
}

#[test]
fn replace_colon_emoji_with_multiple() {
    assert_eq!(replace_colon_emoji(":rocket::book:"), "🚀📖");
    assert_eq!(replace_colon_emoji(":rocket::books:"), "🚀📚");
}

#[test]
fn replace_colon_emoji_with_unknown() {
    assert_eq!(replace_colon_emoji(":unknown:"), ":unknown:");
}

#[test]
fn replace_colon_emoji_with_mixed() {
    assert_eq!(replace_colon_emoji("🚀:rocket:"), "🚀🚀");
}

#[test]
fn replace_colon_emoji_no_change() {
    assert_eq!(replace_colon_emoji("launch nothing"), "launch nothing");
}

#[test]
fn replace_colon_emoji_edge_cases() {
    assert_eq!(replace_colon_emoji(":maybe:rocket:"), ":maybe🚀");
    assert_eq!(replace_colon_emoji(":rocket::rocket:"), "🚀🚀");
}

#[test]
fn replace_colon_emoji_keeps_a_lone_colon() {
    assert_eq!(replace_colon_emoji("a:b"), "a:b");
    assert_eq!(replace_colon_emoji(""), "");
    assert_eq!(replace_colon_emoji("::"), "::");
}

#[test]
fn splice_shortcode_writes_the_emoji_and_skips_both_colons() {
    let s: Vec<char> = "ab:cd:ef".chars().collect();
    let mut out: Vec<char> = vec!['>'];
    let next = splice_shortcode(&mut out, &s, 0, 2, 5, Some("X".to_string()));
    assert_eq!(next, 6);
    assert_eq!(out.iter().collect::<String>(), ">abX");
}

#[test]
fn splice_shortcode_without_emoji_stops_at_the_second_colon() {
    let s: Vec<char> = "ab:cd:ef".chars().collect();
    let mut out: Vec<char> = Vec::new();
    let next = splice_shortcode(&mut out, &s, 1, 2, 5, None);
    assert_eq!(next, 5);
    assert_eq!(out.iter().collect::<String>(), "b:cd");
}

#[test]
fn parse_pane_temp_command() {
    let args = map(&[("target", "pane"), ("emojis", "🚀")]);
    let cmd = parse_args(&args).unwrap();
    assert_eq!(
        cmd,
        Command {
            target: Target::Pane { pane_id: None },
            emojis: "🚀".to_string(),
            mode: Mode::Temp,
        }
    );
}

#[test]
fn parse_command_with_pin_prefix_is_permanent() {
    let args = map(&[("target", "pane"), ("emojis", "📌🚀")]);
    let cmd = parse_args(&args).unwrap();
    assert_eq!(
        cmd,
        Command {
            target: Target::Pane { pane_id: None },
            emojis: "📌🚀".to_string(),
            mode: Mode::Permanent,
        }
    );
}

#[test]
fn parse_command_without_pin_is_temp() {
    let args = map(&[("target", "pane"), ("emojis", "🚀")]);
    let cmd = parse_args(&args).unwrap();
    assert_eq!(cmd.mode, Mode::Temp);
}

#[test]
fn parse_command_with_pin_and_multiple_emojis() {
    let args = map(&[("target", "pane"), ("emojis", "📌🚀📚")]);
    let cmd = parse_args(&args).unwrap();
    assert_eq!(cmd.mode, Mode::Permanent);
}

#[test]
fn parse_command_with_mode_arg_fails() {
    let args = map(&[("target", "pane"), ("emojis", "🚀"), ("mode", "temp")]);
    assert!(parse_args(&args).is_err());
}

#[test]
fn parse_tab_command_with_pane_id() {
    let args = map(&[("target", "tab"), ("pane_id", "77"), ("emojis", "📌📚")]);
    let cmd = parse_args(&args).unwrap();
    assert_eq!(
        cmd,
        Command {
            target: Target::Tab {
                pane_id: Some(77),
                tab_index: None,
            },
            emojis: "📌📚".to_string(),
            mode: Mode::Permanent,
        }
    );
}

#[test]
fn parse_tab_command_with_tab_index() {
    let args = map(&[("target", "tab"), ("tab_index", "1"), ("emojis", "📌📚")]);
    let cmd = parse_args(&args).unwrap();
    assert_eq!(
        cmd,
        Command {
            target: Target::Tab {
                pane_id: None,
                tab_index: Some(1),
            },
            emojis: "📌📚".to_string(),
            mode: Mode::Permanent,
        }
    );
}

#[test]
fn parse_tab_with_pane_id_and_tab_index_fails() {
    let args = map(&[
        ("target", "tab"),
        ("pane_id", "2"),
        ("tab_index", "1"),
        ("emojis", "✅"),
    ]);
    assert!(parse_args(&args).is_err());
}

#[test]
fn parse_tab_with_tab_position_fails() {
    let args = map(&[("target", "tab"), ("tab_position", "1"), ("emojis", "✅")]);
    assert!(parse_args(&args).is_err());
}

#[test]
fn parse_command_with_colon_emoji() {
    let args = map(&[("target", "pane"), ("emojis", ":rocket:")]);
    let cmd = parse_args(&args).unwrap();
    assert_eq!(
        cmd,
        Command {
            target: Target::Pane { pane_id: None },
            emojis: "🚀".to_string(),
            mode: Mode::Temp,
        }
    );
}

#[test]
fn parse_command_with_multiple_colon_emojis() {
    let args = map(&[("target", "pane"), ("emojis", ":rocket::book:")]);
    let cmd = parse_args(&args).unwrap();
    assert_eq!(
        cmd,
        Command {
            target: Target::Pane { pane_id: None },
            emojis: "🚀📖".to_string(),
            mode: Mode::Temp,
        }
    );
}

#[test]
fn parse_command_with_unknown_colon_emoji() {
    let args = map(&[("target", "pane"), ("emojis", ":unknown:")]);
    let cmd = parse_args(&args).unwrap();
    assert_eq!(
        cmd,
        Command {
            target: Target::Pane { pane_id: None },
            emojis: ":unknown:".to_string(),
            mode: Mode::Temp,
        }
    );
}

#[test]
fn parse_command_with_mixed_emojis() {
    let args = map(&[("target", "pane"), ("emojis", "🚀:rocket:")]);
    let cmd = parse_args(&args).unwrap();
    assert_eq!(
        cmd,
        Command {
            target: Target::Pane { pane_id: None },
            emojis: "🚀🚀".to_string(),
            mode: Mode::Temp,
        }
    );
}

#[test]
fn parse_args_names_each_fault() {
    let err = |pairs: &[(&str, &str)]| parse_args(&map(pairs)).unwrap_err();
    assert_eq!(err(&[("emojis", "🚀")]), "missing required arg: target");
    assert_eq!(err(&[("target", "pane")]), "missing required arg: emojis");
    assert_eq!(
        err(&[("target", "pane"), ("emojis", "   ")]),
        "emojis must not be empty"
    );
    assert_eq!(
        err(&[("target", "pane"), ("emojis", "🚀"), ("pane_id", "x")]),
        "pane_id must be an unsigned integer"
    );
    assert_eq!(
        err(&[("target", "pane"), ("emojis", "🚀"), ("tab_index", "1")]),
        "tab_index is not allowed when target=pane"
    );
    assert_eq!(
        err(&[("target", "tab"), ("emojis", "🚀"), ("tab_index", "-1")]),
        "tab_index must be an unsigned integer"
    );
    assert_eq!(
        err(&[("target", "tab"), ("emojis", "🚀"), ("tab_position", "1")]),
        "tab_position is no longer supported; use tab_index"
    );
    assert_eq!(
        err(&[
            ("target", "tab"),
            ("emojis", "🚀"),
            ("tab_index", "1"),
            ("pane_id", "1")
        ]),
        "pane_id and tab_index cannot be set together when target=tab"
    );
    assert_eq!(
        err(&[("target", "window"), ("emojis", "🚀")]),
        "unsupported target: window"
    );
}

#[test]
fn parse_args_takes_the_last_value_of_a_key() {
    let args = map(&[("target", "tab"), ("emojis", "🚀"), ("target", "pane")]);
    assert_eq!(
        parse_args(&args).unwrap().target,
        Target::Pane { pane_id: None }
    );
}

#[test]
fn parse_args_trims_the_emojis() {
    let args = map(&[("target", "pane"), ("emojis", "  📌 x \t")]);
    let cmd = parse_args(&args).unwrap();
    assert_eq!(cmd.emojis, "📌 x");
    assert_eq!(cmd.mode, Mode::Permanent);
}

#[test]
fn parse_optional_numbers_follow_the_decimal_rules() {
    let s = |v: &str| v.to_string();
    assert_eq!(parse_optional_u32(None, "pane_id"), Ok(None));
    assert_eq!(parse_optional_u32(Some(&s("0")), "pane_id"), Ok(Some(0)));
    assert_eq!(parse_optional_u32(Some(&s("+42")), "pane_id"), Ok(Some(42)));
    assert_eq!(parse_optional_u32(Some(&s("007")), "pane_id"), Ok(Some(7)));
    assert_eq!(
        parse_optional_u32(Some(&s("4294967295")), "pane_id"),
        Ok(Some(u32::MAX))
    );
    for bad in ["4294967296", "", "+", "1 ", " 1", "1_0", "-0", "١"] {
        assert_eq!(
            parse_optional_u32(Some(&s(bad)), "pane_id"),
            Err(s("pane_id must be an unsigned integer")),
            "{bad:?}"
        );
        assert_eq!(bad.parse::<u32>().is_err(), true, "{bad:?}");
    }
    assert_eq!(
        parse_optional_usize(Some(&usize::MAX.to_string()), "tab_index"),
        Ok(Some(usize::MAX))
    );
    assert_eq!(
        parse_optional_usize(Some(&s("99999999999999999999999")), "tab_index"),
        Err(s("tab_index must be an unsigned integer"))
    );
}

#[test]
fn mode_follows_the_pin() {
    assert_eq!(mode_from_emojis("📌"), Mode::Permanent);
    assert_eq!(mode_from_emojis("🚀📌"), Mode::Temp);
    assert_eq!(mode_from_emojis(""), Mode::Temp);
}
