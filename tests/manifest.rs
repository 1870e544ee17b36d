use system_rust::{connections, parse_connections, parse_ports, ManifestError, Way};

#[test]
fn connections_test() {
    let rows = parse_connections(
        "mod1.first_out -> mod1_to_mod2;
         mod2.second_out -> mod2_to_mod1;
         mod1.third_in <- mod2_to_mod1;
         mod2.fourth_in <- mod1_to_mod2;",
    )
    .unwrap();
    let seen: Vec<(&str, &str, Way, &str)> = rows
        .iter()
        .map(|b| (b.module.as_str(), b.port.as_str(), b.way, b.signal.as_str()))
        .collect();
    assert_eq!(
        seen,
        vec![
            ("mod1", "first_out", Way::Out, "mod1_to_mod2"),
            ("mod2", "second_out", Way::Out, "mod2_to_mod1"),
            ("mod1", "third_in", Way::In, "mod2_to_mod1"),
            ("mod2", "fourth_in", Way::In, "mod1_to_mod2"),
        ]
    );
    let units = connections(&rows).unwrap();
    assert_eq!(units.len(), 2);
    assert_eq!(units[0].module, "mod1");
    assert_eq!(units[0].rows, vec![0, 2]);
    assert_eq!(units[1].module, "mod2");
    assert_eq!(units[1].rows, vec![1, 3]);
}

#[test]
fn ports_test() {
    let decls = parse_ports(
        "first_out -> i32,
         second_out -> u64,
         third_in <- u8,
         fourth_in <- i16",
    )
    .unwrap();
    let seen: Vec<(&str, Way, &str)> =
        decls.iter().map(|d| (d.name.as_str(), d.way, d.ty.as_str())).collect();
    assert_eq!(
        seen,
        vec![
            ("first_out", Way::Out, "i32"),
            ("second_out", Way::Out, "u64"),
            ("third_in", Way::In, "u8"),
            ("fourth_in", Way::In, "i16"),
        ]
    );
}

#[test]
fn empty_manifests_list_nothing() {
    assert_eq!(parse_connections("").unwrap().len(), 0);
    assert_eq!(parse_connections("  \n\t ").unwrap().len(), 0);
    assert_eq!(parse_ports("").unwrap().len(), 0);
}

#[test]
fn final_separator_is_optional() {
    assert_eq!(parse_connections("a.x -> s").unwrap().len(), 1);
    assert_eq!(parse_connections("a.x -> s;").unwrap().len(), 1);
    assert_eq!(parse_ports("x <- T").unwrap().len(), 1);
    assert_eq!(parse_ports("x <- T,").unwrap().len(), 1);
}

#[test]
fn white_space_is_optional_between_symbols() {
    let rows = parse_connections("gen.out->wire;sink.inp<-wire").unwrap();
    assert_eq!(rows.len(), 2);
    assert_eq!(rows[0].module, "gen");
    assert_eq!(rows[0].port, "out");
    assert_eq!(rows[0].way, Way::Out);
    assert_eq!(rows[1].signal, "wire");
    assert_eq!(rows[1].way, Way::In);
}

#[test]
fn unknown_character_is_refused() {
    assert_eq!(parse_connections("a.x => s;").err(), Some(ManifestError::BadCharacter));
    assert_eq!(parse_connections("a.x -> 9s;").err(), Some(ManifestError::BadCharacter));
    assert_eq!(parse_ports("x <- T; ").err(), Some(ManifestError::BadSyntax));
    assert_eq!(parse_ports("x < T").err(), Some(ManifestError::BadCharacter));
}

#[test]
fn malformed_manifest_is_refused() {
    assert_eq!(parse_connections("a.x -> s b.y <- s").err(), Some(ManifestError::BadSyntax));
    assert_eq!(parse_connections("a -> s;").err(), Some(ManifestError::BadSyntax));
    assert_eq!(parse_connections("a.x -> s;;").err(), Some(ManifestError::BadSyntax));
    assert_eq!(parse_connections("a.x.y -> s").err(), Some(ManifestError::BadSyntax));
    assert_eq!(parse_ports("x <- T y -> U").err(), Some(ManifestError::BadSyntax));
    assert_eq!(parse_ports("x.y <- T").err(), Some(ManifestError::BadSyntax));
}
