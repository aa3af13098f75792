//! Writing measured values into a configuration file.
use par6d::selfcal::lines::set_value;
use par6d::selfcal::patch::{
    patch_array, patch_config, patch_exec_limits, patch_joint_table, FoundGains,
    FoundLimits, Friction, FrictionUpdate, Measured, Setting,
};

fn words(values: &[&str]) -> Vec<String> {
    values.iter().map(|v| (*v).to_owned()).collect()
}

const CONFIG: &str = "gravity_scale = [1.0, 1.0, 1.08, 1.0, 1.0, 1.0]  # trims
viscous_nm_s = [
    0.1, 0.2,
]
[[joints]]
name = \"joint1\"
[joints.limits.exec]
velocity_rad_s = 1.5 # measured by hand
  acceleration_rad_s2=4.0
[joints.gains]
kpv = 0.5
kiv = 0.25
[[joints]]
name = \"joint2\"
[joints.limits.exec]
velocity_rad_s = 2.5
jerk_rad_s3 = 30.0
";

#[test]
fn a_line_keeps_its_indent_and_its_comment() {
    assert_eq!(
        set_value("a = 1\n  kpv   = 2 # tuned  \nb = 3\n", "kpv", "7.50000"),
        "a = 1\n  kpv = 7.50000 # tuned\nb = 3\n"
    );
}

#[test]
fn only_the_first_line_that_sets_a_key_is_replaced() {
    assert_eq!(
        set_value("kpv = 1\nkpv = 2\n", "kpv", "9"),
        "kpv = 9\nkpv = 2\n"
    );
    // A longer key, a comment and a key without an equals sign are not it.
    assert_eq!(
        set_value("kpvx = 1\n# kpv = 2\nkpv\nkpv = 3", "kpv", "9"),
        "kpvx = 1\n# kpv = 2\nkpv\nkpv = 9\n"
    );
}

#[test]
fn a_key_that_is_not_there_is_added_at_the_end() {
    assert_eq!(set_value("a = 1\n", "kpv", "9"), "a = 1\nkpv = 9\n");
    assert_eq!(set_value("a = 1", "kpv", "9"), "a = 1\nkpv = 9\n");
    assert_eq!(set_value("", "kpv", "9"), "\nkpv = 9\n");
}

#[test]
fn a_value_that_was_set_reads_back_and_setting_it_again_changes_nothing() {
    for block in ["", "a = 1", "\tkpv=2#x", "b = 2\n\u{a0}kpv = 3\n"] {
        let once = set_value(block, "kpv", "4.00000");
        assert!(once.contains("kpv = 4.00000"));
        assert_eq!(set_value(&once, "kpv", "4.00000"), once);
    }
}

#[test]
fn an_array_is_replaced_where_it_is() {
    let mut text = CONFIG.to_owned();
    patch_array(&mut text, "viscous_nm_s", &words(&["0.3", "0.4"])).unwrap();
    assert_eq!(
        text,
        CONFIG.replace("[\n    0.1, 0.2,\n]", "[0.3, 0.4]")
    );
}

#[test]
fn an_array_that_is_not_there_comes_first() {
    let mut text = CONFIG.to_owned();
    patch_array(&mut text, "coulomb_nm", &words(&["0.5"])).unwrap();
    assert_eq!(
        text,
        format!("coulomb_nm = [0.5]  # selfcal: measured\n{CONFIG}")
    );
}

#[test]
fn an_array_that_is_none_or_does_not_end_is_refused() {
    let mut text = "coulomb_nm = 3\n".to_owned();
    let e = patch_array(&mut text, "coulomb_nm", &[]).unwrap_err();
    assert_eq!(e.message(), "coulomb_nm is not an array");
    let mut text = "coulomb_nm = [3\n".to_owned();
    let e = patch_array(&mut text, "coulomb_nm", &[]).unwrap_err();
    assert_eq!(e.message(), "coulomb_nm is not closed");
    assert_eq!(text, "coulomb_nm = [3\n");
}

#[test]
fn a_joints_table_is_found_between_its_name_and_the_next_joint() {
    let mut text = CONFIG.to_owned();
    let setting = [Setting {
        key: "velocity_rad_s".to_owned(),
        value: "3.00000".to_owned(),
    }];
    patch_joint_table(&mut text, 1, "[joints.limits.exec]", &setting).unwrap();
    assert_eq!(
        text,
        CONFIG.replace("velocity_rad_s = 2.5", "velocity_rad_s = 3.00000")
    );
    let e = patch_joint_table(&mut text, 1, "[joints.gains]", &setting).unwrap_err();
    assert_eq!(e.message(), "joint2 has no [joints.gains] table");
    let e = patch_joint_table(&mut text, 6, "[joints.gains]", &setting).unwrap_err();
    assert_eq!(e.message(), "configuration has no joint7");
}

#[test]
fn a_jerk_that_was_only_bounded_is_not_written() {
    let mut found = FoundLimits {
        velocity: None,
        acceleration: None,
        jerk: Some("99.00000".to_owned()),
        jerk_measured: false,
    };
    let mut text = CONFIG.to_owned();
    patch_exec_limits(&mut text, 1, &found).unwrap();
    assert_eq!(text, CONFIG);
    // Nothing is looked for where nothing is written.
    patch_exec_limits(&mut text, 17, &found).unwrap();
    found.jerk_measured = true;
    patch_exec_limits(&mut text, 1, &found).unwrap();
    assert_eq!(
        text,
        CONFIG.replace("jerk_rad_s3 = 30.0", "jerk_rad_s3 = 99.00000")
    );
}

#[test]
fn a_run_writes_what_it_moved_and_nothing_else() {
    let nothing = Measured {
        correction: None,
        friction: None,
        gains: None,
        limits: None,
    };
    assert_eq!(patch_config(CONFIG, &nothing).unwrap(), CONFIG);
    let measured = Measured {
        correction: Some(words(&["0.01", "-0.02"])),
        friction: Some(FrictionUpdate {
            measured: vec![
                None,
                Some(Friction {
                    viscous: "0.25".to_owned(),
                    coulomb: "0.75".to_owned(),
                }),
            ],
            viscous: words(&["0.1", "0.2"]),
            coulomb: words(&["0.5", "0.6"]),
        }),
        gains: Some(vec![
            Some(FoundGains {
                kpv: None,
                kiv: Some("0.12500".to_owned()),
            }),
            Some(FoundGains {
                kpv: None,
                kiv: None,
            }),
        ]),
        limits: Some(vec![
            Some(FoundLimits {
                velocity: Some("2.00000".to_owned()),
                acceleration: Some("5.00000".to_owned()),
                jerk: None,
                jerk_measured: true,
            }),
            None,
        ]),
    };
    let expected = format!(
        "coulomb_nm = [0.5, 0.75]  # selfcal: measured\n\
         gravity_correction = [0.01, -0.02]  # selfcal: measured\n{}",
        CONFIG
            .replace(
                "gravity_scale = [1.0, 1.0, 1.08, 1.0, 1.0, 1.0]",
                "gravity_scale = [1.0, 1.0, 1.0, 1.0, 1.0, 1.0]"
            )
            .replace("[\n    0.1, 0.2,\n]", "[0.1, 0.25]")
            .replace("kiv = 0.25", "kiv = 0.12500")
            .replace(
                "velocity_rad_s = 1.5 # measured by hand",
                "velocity_rad_s = 2.00000 # measured by hand"
            )
            .replace("acceleration_rad_s2=4.0", "acceleration_rad_s2 = 5.00000")
    );
    assert_eq!(patch_config(CONFIG, &measured).unwrap(), expected);
}

#[test]
fn a_run_that_cannot_be_written_says_where() {
    let measured = Measured {
        correction: None,
        friction: None,
        gains: Some(vec![
            None,
            Some(FoundGains {
                kpv: Some("1.00000".to_owned()),
                kiv: None,
            }),
        ]),
        limits: None,
    };
    let e = patch_config(CONFIG, &measured).unwrap_err();
    assert_eq!(e.message(), "joint2 has no [joints.gains] table");
}

#[test]
fn setting_one_key_leaves_the_other_values() {
    let once = set_value("kp = 1\nkpv = 2", "kpv", "7");
    assert_eq!(once, "kp = 1\nkpv = 7\n");
    let twice = set_value(&once, "kp", "9");
    assert_eq!(twice, "kp = 9\nkpv = 7\n");
    assert_eq!(set_value(&twice, "kiv", "3"), "kp = 9\nkpv = 7\nkiv = 3\n");
}

#[test]
fn an_array_that_only_a_comment_a_string_or_a_table_names_is_added() {
    let one = words(&["1.0"]);
    let line = "gravity_scale = [1.0]  # selfcal: measured\n";
    for text in [
        "# gravity_scale = [9.0]\n",
        "a = 1 # gravity_scale = [9.0]\n",
        "old_gravity_scale = [9.0]\n",
        "note = \"\"\"\ngravity_scale = [9.0]\n\"\"\"\n",
        "[sim]\ngravity_scale = [9.0]\n",
        "  [sim] # a table\ngravity_scale = [9.0]\n",
        "rows = [\n[1.0],\ngravity_scale = [9.0]\n]\n",
    ] {
        let mut patched = text.to_owned();
        patch_array(&mut patched, "gravity_scale", &one).unwrap();
        assert_eq!(patched, format!("{line}{text}"));
        // Once it is there it is replaced.
        patch_array(&mut patched, "gravity_scale", &words(&["2.0"])).unwrap();
        assert_eq!(patched, format!("{}{text}", line.replace("1.0", "2.0")));
    }
}

#[test]
fn a_whole_array_is_replaced_and_no_other() {
    let one = words(&["1.0"]);
    let patched = |text: &str| {
        let mut text = text.to_owned();
        patch_array(&mut text, "gravity_scale", &one).map(|()| text)
    };
    assert_eq!(
        patched("rows = [\n[1.0],\n[2.0]\n]\ngravity_scale=[\n  9.0, # of ]\n]\n[t]\n").unwrap(),
        "rows = [\n[1.0],\n[2.0]\n]\ngravity_scale=[1.0]\n[t]\n"
    );
    let e = patched("gravity_scale = 3\nother = [4.0]\n").unwrap_err();
    assert_eq!(e.message(), "gravity_scale is not an array");
    let e = patched("gravity_scale = [3 # ]\n").unwrap_err();
    assert_eq!(e.message(), "gravity_scale is not closed");
}

#[test]
fn a_joint_and_its_table_are_not_taken_from_comments() {
    let text = "# name = \"joint1\" and [joints.gains]\n[[joints]]\nname = \"joint1\"\n\
                # [joints.gains] come next\n# [[joints]]\n[joints.gains]\nkpv = 1\n";
    let mut patched = text.to_owned();
    let setting = [Setting {
        key: "kpv".to_owned(),
        value: "2".to_owned(),
    }];
    patch_joint_table(&mut patched, 0, "[joints.gains]", &setting).unwrap();
    assert_eq!(patched, text.replace("kpv = 1", "kpv = 2"));
}

#[test]
fn the_last_value_set_wins() {
    for block in ["", "a = 1", "\tkpv=2 # x ", "b = 2\n kpv = 3 #\nc = 4\n"] {
        let twice = set_value(&set_value(block, "kpv", "5"), "kpv", "6");
        assert_eq!(twice, set_value(block, "kpv", "6"));
    }
}

#[test]
fn friction_is_written_where_the_file_has_it() {
    let friction = FrictionUpdate {
        measured: vec![Some(Friction {
            viscous: "0.25".to_owned(),
            coulomb: "0.75".to_owned(),
        })],
        viscous: words(&["0.1"]),
        coulomb: words(&["0.5"]),
    };
    let measured = Measured {
        correction: None,
        friction: Some(friction),
        gains: None,
        limits: None,
    };
    let text = "a = 1\n[sim]\n# viscous_nm_s = [9.0]\nviscous_nm_s = [0.1]\ncoulomb_nm = [0.5]\n";
    assert_eq!(
        patch_config(text, &measured).unwrap(),
        "a = 1\n[sim]\n# viscous_nm_s = [9.0]\nviscous_nm_s = [0.25]\ncoulomb_nm = [0.75]\n"
    );
}
