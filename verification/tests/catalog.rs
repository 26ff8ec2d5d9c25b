use melee_inject::catalog::{character_name, color_name, contents, CharacterFile};
use melee_inject::characters::{
    CaptainFalcon, CaptainFalconFile, Character, Common, Kirby, Link, YoungLink,
};

fn file(filename: &str, name: &str, color: Option<&str>, kirby_copy: Option<&str>) -> CharacterFile {
    CharacterFile {
        filename: filename.to_string(),
        name: name.to_string(),
        color: color.map(|c| c.to_string()),
        kirby_copy: kirby_copy.map(|c| c.to_string()),
    }
}

#[test]
fn the_catalog_names_the_files_of_captain_falcon() {
    assert_eq!(CaptainFalcon::PlCa, "PlCa.dat");
    assert_eq!(CaptainFalcon::PlCaBu, "PlCaBu.dat");
    assert_eq!(CaptainFalcon::PlCaGr, "PlCaGr.dat");
    assert_eq!(CaptainFalcon::PlCaGy, "PlCaGu.dat");
    assert_eq!(CaptainFalcon::PlCaNr, "PlCaNr.dat");
    assert_eq!(CaptainFalcon::PlCaRe, "PlCaRe.dat");
    assert_eq!(CaptainFalcon::PlCaWh, "PlCaWh.dat");
}

#[test]
fn the_catalog_names_files_of_other_characters() {
    assert_eq!(YoungLink::PlClBk, "PlClBk.dat");
    assert_eq!(Kirby::PlKbBuCpDk, "PlKbBuCpDk.dat");
    assert_eq!(Kirby::PlKbCpZd, "PlKbCpZd.dat");
    assert_eq!(Common::PlCo, "PlCo.dat");
    assert_eq!(Link::PlLkWh, "PlLkWh.dat");
}

#[test]
fn three_files_of_captain_falcon_have_a_known_name() {
    let known = [
        (CaptainFalconFile::PlCa, "PlCa.dat"),
        (CaptainFalconFile::PlCaNr, "PlCaNr.dat"),
        (CaptainFalconFile::PlCaGr, "PlCaGr.dat"),
    ];
    for (file, name) in known {
        let character = Character::CaptainFalcon(file);
        assert!(Character::has_filename(&character));
        assert_eq!(Character::filename(&character), name);
    }
    let unknown = [
        CaptainFalconFile::PlCaBu,
        CaptainFalconFile::PlCaGy,
        CaptainFalconFile::PlCaRe,
        CaptainFalconFile::PlCaWh,
    ];
    for file in unknown {
        assert!(!Character::has_filename(&Character::CaptainFalcon(file)));
    }
}

#[test]
fn codes_stand_for_characters_and_colours() {
    assert_eq!(character_name('C', 'a'), Some("Captain Falcon"));
    assert_eq!(character_name('K', 'b'), Some("Kirby"));
    assert_eq!(character_name('G', 'w'), Some("Game 'n Watch"));
    assert_eq!(character_name('P', 'n'), Some("[Popo/Nana] Ice Climbers"));
    assert_eq!(character_name('Z', 'd'), Some("Zelda"));
    assert_eq!(character_name('c', 'a'), None);
    assert_eq!(character_name('a', 'C'), None);
    assert_eq!(character_name('B', 'u'), None);
    assert_eq!(color_name('B', 'u'), Some("Blue"));
    assert_eq!(color_name('A', 'q'), Some("Aqua"));
    assert_eq!(color_name('Y', 'e'), Some("Yellow"));
    assert_eq!(color_name('G', 'u'), None);
    assert_eq!(color_name('C', 'a'), None);
}

#[test]
fn shared_data_and_animations_have_no_colour() {
    assert_eq!(CharacterFile::from_str("PlCa.dat"), Some(file("PlCa.dat", "Captain Falcon", None, None)));
    assert_eq!(CharacterFile::from_str("PlCaAJ.dat"), Some(file("PlCaAJ.dat", "Captain Falcon", None, None)));
    assert_eq!(
        CharacterFile::from_str("PlCaDViWaitAJ.dat"),
        Some(file("PlCaDViWaitAJ.dat", "Captain Falcon", None, None))
    );
    assert_eq!(CharacterFile::from_str("PlKb.dat"), Some(file("PlKb.dat", "Kirby", None, None)));
    assert_eq!(CharacterFile::from_str("PlKbAJ.dat"), Some(file("PlKbAJ.dat", "Kirby", None, None)));
}

#[test]
fn costumes_have_a_colour() {
    assert_eq!(
        CharacterFile::from_str("PlCaBu.dat"),
        Some(file("PlCaBu.dat", "Captain Falcon", Some("Blue"), None))
    );
    assert_eq!(CharacterFile::from_str("PlZdWh.dat"), Some(file("PlZdWh.dat", "Zelda", Some("White"), None)));
    assert_eq!(CharacterFile::from_str("PlKbYe.dat"), Some(file("PlKbYe.dat", "Kirby", Some("Yellow"), None)));
}

#[test]
fn kirby_copies_powers() {
    assert_eq!(
        CharacterFile::from_str("PlKbCpCa.dat"),
        Some(file("PlKbCpCa.dat", "Kirby", None, Some("Captain Falcon")))
    );
    assert_eq!(
        CharacterFile::from_str("PlKbBuCpDk.dat"),
        Some(file("PlKbBuCpDk.dat", "Kirby", Some("Blue"), Some("Donkey Kong")))
    );
    assert_eq!(
        CharacterFile::from_str("PlKbNrCpGw.dat"),
        Some(file("PlKbNrCpGw.dat", "Kirby", Some("Neutral"), Some("Game 'n Watch")))
    );
}

#[test]
fn every_file_of_the_kirby_catalog_is_understood() {
    for name in [Kirby::PlKb, Kirby::PlKbBu, Kirby::PlKbCpFe, Kirby::PlKbGrCpMt, Kirby::PlKbWhCpPr] {
        let parsed = CharacterFile::from_str(name).unwrap();
        assert_eq!(parsed.filename, name);
        assert_eq!(parsed.name, "Kirby");
    }
}

#[test]
fn other_names_are_not_understood() {
    for name in [
        "",
        "Pl",
        "Pl.dat",
        "PlC.dat",
        "Ca.dat",
        "plCa.dat",
        "PLCa.dat",
        "PlXx.dat",
        "PlCa.bin",
        "PlCa.DAT",
        "PlCadat",
        "PlCa.dat ",
        "PlCaZz.dat",
        "PlCaGu.dat",
        "PlCaB.dat",
        "PlCaBlue.dat",
        "PlCaCpDk.dat",
        "PlCaBuCpDk.dat",
        "PlKbCpXx.dat",
        "PlKbCaCa.dat",
        "PlKbXxCpDk.dat",
        "PlKbBuCpXx.dat",
        "PlKbBuXxDk.dat",
        "PlKbBuCpDkk.dat",
        "PlKbB.dat",
        "PlCaAJAJ.dat",
        "PlCaaj.dat",
        "PlCaDViWaitAK.dat",
        "PlC\u{e9}.dat",
        "PlCa\u{e9}.dat",
        "PlKb\u{e9}\u{e9}.dat",
    ] {
        assert_eq!(CharacterFile::from_str(name), None, "{name:?}");
    }
}

#[test]
fn contents_by_hand() {
    assert_eq!(contents(false, &[]), Some((None, None)));
    assert_eq!(contents(false, &['A', 'J']), Some((None, None)));
    assert_eq!(contents(false, &['R', 'e']), Some((Some("Red"), None)));
    assert_eq!(contents(false, &['C', 'p', 'D', 'k']), None);
    assert_eq!(contents(true, &['C', 'p', 'D', 'k']), Some((None, Some("Donkey Kong"))));
    assert_eq!(contents(true, &['R', 'e', 'C', 'p', 'D', 'k']), Some((Some("Red"), Some("Donkey Kong"))));
    assert_eq!(contents(false, &['R', 'e', 'C', 'p', 'D', 'k']), None);
    assert_eq!(contents(true, &['R', 'e', 'D', 'k', 'C', 'p']), None);
}
