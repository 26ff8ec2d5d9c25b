use melee_inject::catalog::CharacterFile;
use melee_inject::generate::{
    catalog, catalog_items, character_files, has_pl_prefix, names_animation, render, SourceItem,
};
use melee_inject::record::FsNode;

fn file(name: &str) -> FsNode {
    FsNode::File { name: name.to_string(), offset: 0, size: 0 }
}

fn raw(text: &str) -> SourceItem {
    SourceItem::Raw { text: text.to_string() }
}

fn unit(name: &str) -> SourceItem {
    SourceItem::UnitStruct {
        name: name.to_string(),
        first_derive: "Debug".to_string(),
        second_derive: "Clone".to_string(),
        vis: "pub".to_string(),
        doc: format!("Supported files for {name}."),
    }
}

fn listing() -> Vec<FsNode> {
    vec![
        file("opening.bnr"),
        file("PlCa.dat"),
        file("PlKbBuCpDk.dat"),
        FsNode::Directory { name: "PlFx.dat".to_string(), parent_index: 0, end_index: 3 },
        file("PlCaAJ.dat"),
        file("PlCaBu.dat"),
        file("GmTitle.dat"),
        file("PlKbCpCa.dat"),
        file("PlZd.usd"),
        file("PlKb.dat"),
    ]
}

#[test]
fn prefix_and_animation_names() {
    assert!(has_pl_prefix("PlCa.dat"));
    assert!(has_pl_prefix("Pl"));
    assert!(!has_pl_prefix("P"));
    assert!(!has_pl_prefix(""));
    assert!(!has_pl_prefix("plCa.dat"));
    assert!(!has_pl_prefix("aPl"));
    assert!(names_animation("PlCaAJ.dat"));
    assert!(names_animation("PlCaDViWaitAJ.dat"));
    assert!(names_animation("AJ.dat"));
    assert!(!names_animation("J.dat"));
    assert!(!names_animation("PlCa.dat"));
    assert!(!names_animation("PlCaAJ.dat "));
    assert!(!names_animation("PlCaaj.dat"));
}

#[test]
fn character_files_are_the_dat_files_that_start_with_pl() {
    let parsed = character_files(&listing()).unwrap();
    let names: Vec<&str> = parsed.iter().map(|f| f.filename.as_str()).collect();
    assert_eq!(
        names,
        vec!["PlCa.dat", "PlKbBuCpDk.dat", "PlCaAJ.dat", "PlCaBu.dat", "PlKbCpCa.dat", "PlKb.dat"]
    );
    assert_eq!(parsed[1], CharacterFile::from_str("PlKbBuCpDk.dat").unwrap());
    assert_eq!(character_files(&vec![]), Some(vec![]));
}

#[test]
fn an_unknown_character_file_fails_the_catalog() {
    let mut files = listing();
    files.push(file("PlXx.dat"));
    assert_eq!(character_files(&files), None);
    assert_eq!(catalog_items(&files), None);
    assert_eq!(catalog(&files), None);
    // other files may have any name
    let mut files = listing();
    files.push(file("Xx.dat"));
    files.push(file("PlXx.bin"));
    assert!(catalog_items(&files).is_some());
}

#[test]
fn the_catalog_has_a_type_per_character_and_a_constant_per_file() {
    let items = catalog_items(&listing()).unwrap();
    let expected = vec![
        unit("Captain Falcon"),
        raw("impl Captain Falcon {"),
        raw("    /// Shared textures. "),
        raw("    pub const PlCa: &'static str = \"PlCa.dat\";"),
        raw("    /// Blue costume. "),
        raw("    pub const PlCaBu: &'static str = \"PlCaBu.dat\";"),
        raw("}"),
        unit("Kirby"),
        raw("impl Kirby {"),
        raw("    /// Blue costume, Copy Power (Donkey Kong). "),
        raw("    pub const PlKbBuCpDk: &'static str = \"PlKbBuCpDk.dat\";"),
        raw("    /// Copy Power (Captain Falcon)."),
        raw("    pub const PlKbCpCa: &'static str = \"PlKbCpCa.dat\";"),
        raw("    /// Shared textures. "),
        raw("    pub const PlKb: &'static str = \"PlKb.dat\";"),
        raw("}"),
    ];
    assert_eq!(items, expected);
}

#[test]
fn a_character_with_animations_only_has_no_constants() {
    let items = catalog_items(&vec![file("PlFxAJ.dat")]).unwrap();
    assert_eq!(items, vec![unit("Fox"), raw("impl Fox {"), raw("}")]);
    assert_eq!(catalog_items(&vec![]), Some(vec![]));
}

#[test]
fn render_lays_the_items_out() {
    assert_eq!(render(&vec![]), "");
    assert_eq!(render(&vec![raw("a")]), "a");
    assert_eq!(render(&vec![raw("a"), raw("b")]), "a\n\nb");
    assert_eq!(
        render(&vec![unit("Fox")]),
        "/// Supported files for Fox.\n#[derive(Debug, Clone)]\npub struct Fox;"
    );
    assert_ne!(render(&vec![raw("a"), raw("b")]), render(&vec![raw("b"), raw("a")]));
}

#[test]
fn the_catalog_as_text() {
    let text = catalog(&vec![file("PlFx.dat"), file("PlFxGr.dat")]).unwrap();
    let expected = [
        "/// Supported files for Fox.",
        "#[derive(Debug, Clone)]",
        "pub struct Fox;",
        "",
        "impl Fox {",
        "",
        "    /// Shared textures. ",
        "",
        "    pub const PlFx: &'static str = \"PlFx.dat\";",
        "",
        "    /// Green costume. ",
        "",
        "    pub const PlFxGr: &'static str = \"PlFxGr.dat\";",
        "",
        "}",
    ]
    .join("\n");
    assert_eq!(text, expected);
}
