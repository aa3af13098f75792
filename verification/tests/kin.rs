//! The models and the shared tool offset.
use par6d::kin::{
    assets_beside, load_message, resolve_assets_dir, set_stores, variant_for, whole, GripperVariant, KinGravity, Place,
    OffsetStore, ToolOffset,
};

#[test]
fn a_tool_is_known_by_its_name() {
    let of = |name: &str| {
        let choice = variant_for(name);
        (choice.variant, choice.known)
    };
    assert_eq!(of("Flange"), (GripperVariant::Flange, true));
    assert_eq!(of("FLANGE"), (GripperVariant::Flange, true));
    assert_eq!(of("MSG compact"), (GripperVariant::Msg, true));
    assert_eq!(of("SSG48"), (GripperVariant::Ssg48, true));
    assert_eq!(of("msg"), (GripperVariant::Flange, false));
    assert_eq!(of("SSG4"), (GripperVariant::Flange, false));
    assert_eq!(of("Flanges"), (GripperVariant::Flange, false));
}

#[test]
fn models_are_found_where_they_are_said_to_be_or_beside_the_configuration() {
    let place = |path: &str, exists| {
        Some(Place {
            path: path.to_owned(),
            exists,
        })
    };
    assert_eq!(
        resolve_assets_dir(place("/a", true), "/c/config/PAR6.toml", true),
        Ok("/a".to_owned())
    );
    assert_eq!(
        resolve_assets_dir(place("/a", false), "/c/config/PAR6.toml", true),
        Err("assets directory not found: /a".to_owned())
    );
    assert_eq!(
        resolve_assets_dir(None, "/c/config/PAR6.toml", true),
        Ok("/c/assets/par6_description".to_owned())
    );
    let none = |path: &str| {
        Err(format!(
            "no assets/par6_description tree next to {path}; set --assets or PAR6_ASSETS"
        ))
    };
    assert_eq!(
        resolve_assets_dir(None, "/c/config/PAR6.toml", false),
        none("/c/config/PAR6.toml")
    );
    assert_eq!(resolve_assets_dir(None, "PAR6.toml", true), none("PAR6.toml"));
    assert_eq!(
        load_message("flange.urdf", "/a", "no such file"),
        "cannot load kinematics model flange.urdf from /a: no such file"
    );
}

#[test]
fn a_gravity_model_that_fails_leaves_the_last_good_torques() {
    let mut gravity = KinGravity::new([0; 6]);
    assert_eq!(gravity.gravity(None), [0; 6]);
    assert_eq!(gravity.gravity(Some([1; 6])), [1; 6]);
    assert_eq!(gravity.gravity(None), [1; 6]);
}

#[test]
fn an_offset_is_never_read_half_written() {
    let mut offset = ToolOffset::new();
    assert_eq!(offset.get(), [0, 0, 0]);
    offset.set([1, 2, 3]);
    assert_eq!(offset.get(), [1, 2, 3]);
    // A reader that starts while a write is in progress must try again.
    let before = offset.version;
    offset.begin();
    assert!(!whole(offset.version, offset.version));
    offset.store(0, 9);
    assert!(!whole(before, offset.version));
    offset.store(1, 8);
    offset.store(2, 7);
    offset.finish();
    assert!(!whole(before, offset.version));
    assert!(whole(offset.version, offset.version));
    assert_eq!(offset.get(), [9, 8, 7]);
    assert_eq!(offset.version, 4);
}

#[test]
fn models_beside_the_configuration_are_found_by_its_path_alone() {
    assert_eq!(
        assets_beside("config/PAR6.toml").as_deref(),
        Some("assets/par6_description")
    );
    assert_eq!(assets_beside("PAR6.toml"), None);
    assert_eq!(assets_beside("/PAR6.toml"), None);
    assert_eq!(assets_beside("/").or(assets_beside("")), None);
    // As paths are taken apart and put together everywhere.
    for text in [
        "/etc/PAR6.toml",
        "/etc/par6/PAR6.toml",
        "/etc//par6///PAR6.toml/",
        "./config/PAR6.toml",
        "./PAR6.toml",
        "../PAR6.toml",
        "../config/PAR6.toml",
        "a/./b/./PAR6.toml",
        "a/../PAR6.toml",
        "//a",
        "//a/b",
        "/./a/b",
        "/.",
        ".",
        "..",
        "a/.",
        "a/./",
        ".a/b.",
        "a.",
    ] {
        let expected = std::path::Path::new(text)
            .parent()
            .and_then(std::path::Path::parent)
            .map(|root| root.join("assets/par6_description"));
        assert_eq!(
            assets_beside(text),
            expected.map(|p| p.to_str().unwrap().to_owned()),
            "{text}"
        );
    }
}

#[test]
fn an_offset_is_published_store_by_store() {
    let bits = [1.5f64, -0.25, 0.0].map(f64::to_bits);
    let stores = set_stores(4, bits);
    assert_eq!(
        stores,
        [
            OffsetStore::Version(5),
            OffsetStore::Coordinate { axis: 0, bits: bits[0] },
            OffsetStore::Coordinate { axis: 1, bits: bits[1] },
            OffsetStore::Coordinate { axis: 2, bits: bits[2] },
            OffsetStore::Version(6),
        ]
    );
    // A reader may use what it read before the first store or after the last, and
    // nothing in between.
    let mut cell = (4, [0; 3]);
    let mut seen = vec![cell];
    for store in stores {
        match store {
            OffsetStore::Version(v) => cell.0 = v,
            OffsetStore::Coordinate { axis, bits } => cell.1[axis] = bits,
        }
        seen.push(cell);
    }
    for (i, before) in seen.iter().enumerate() {
        for after in &seen[i..] {
            let usable = whole(before.0, after.0);
            assert_eq!(usable, before == after && (i == 0 || i == 5));
        }
    }
    assert_eq!(cell, (6, bits));
    assert_eq!(set_stores(u64::MAX - 1, bits)[4], OffsetStore::Version(0));
}
