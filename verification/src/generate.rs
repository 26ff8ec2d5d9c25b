//! Source text of the catalog, written from the files of an image.
//!
//! The catalog has one unit type per character, with one constant per file of
//! the character. The characters come in the order in which the listing of
//! the image first names them, and the files of a character in the order of
//! the listing. Files of animations are left out.
//!
//! What the text says is worked out here, as a list of items. The text itself
//! is laid out by the `codegen` crate.

use crate::catalog::{classify_spec, CharacterFile, CharacterFileView};
use crate::record::{nodes_view, FsNode, FsNodeView};
use crate::search::{has_dat_suffix, is_dat_name};
use codegen::Scope;
use vstd::prelude::*;

verus! {

/// The scope of the `codegen` crate: source text under construction.
#[verifier::external_type_specification]
#[verifier::external_body]
pub struct ExScope(Scope);

/// One item of source text.
#[derive(Debug, Clone, PartialEq, Eq)]
pub enum SourceItem {
    /// The definition of a unit struct that derives two traits.
    UnitStruct { name: String, first_derive: String, second_derive: String, vis: String, doc: String },
    /// Text that is taken over as it is.
    Raw { text: String },
}

/// The mathematical value of a [`SourceItem`].
pub enum ItemView {
    UnitStruct {
        name: Seq<char>,
        first_derive: Seq<char>,
        second_derive: Seq<char>,
        vis: Seq<char>,
        doc: Seq<char>,
    },
    Raw { text: Seq<char> },
}

impl View for SourceItem {
    type V = ItemView;

    open spec fn view(&self) -> ItemView {
        match *self {
            SourceItem::UnitStruct { name, first_derive, second_derive, vis, doc } => {
                ItemView::UnitStruct {
                    name: name@,
                    first_derive: first_derive@,
                    second_derive: second_derive@,
                    vis: vis@,
                    doc: doc@,
                }
            },
            SourceItem::Raw { text } => ItemView::Raw { text: text@ },
        }
    }
}

/// The values of a list of items.
pub open spec fn items_view(items: Seq<SourceItem>) -> Seq<ItemView> {
    items.map_values(|item: SourceItem| item@)
}

/// The items that the scope holds, in the order in which they were added.
pub uninterp spec fn scope_items(scope: Scope) -> Seq<ItemView>;

/// Whether the scope holds nothing but the items that `scope_items` lists: no
/// documentation and no imports of its own, and no item of another kind.
pub uninterp spec fn scope_is_bare(scope: Scope) -> bool;

/// The source text that `Scope::to_string` lays out for a bare scope of these
/// items.
pub uninterp spec fn rendered(items: Seq<ItemView>) -> Seq<char>;

/// `Scope::new` of `codegen`: the scope it returns has no items, no
/// documentation and no imports.
#[verifier::external_body]
fn scope_new() -> (scope: Scope)
    ensures
        scope_items(scope) == Seq::<ItemView>::empty(),
        scope_is_bare(scope),
{
    Scope::new()
}

/// `Scope::new_struct` of `codegen`, with `derive`, `vis` and `doc` of the
/// struct that it returns: the scope gets one more item, a unit struct of
/// that name which derives the two traits in this order and has this
/// visibility and documentation. Nothing else of the scope changes.
#[verifier::external_body]
fn scope_unit_struct(
    scope: &mut Scope,
    name: &str,
    first_derive: &str,
    second_derive: &str,
    vis: &str,
    doc: &str,
)
    ensures
        scope_items(*final(scope)) == scope_items(*old(scope)).push(
            ItemView::UnitStruct {
                name: name@,
                first_derive: first_derive@,
                second_derive: second_derive@,
                vis: vis@,
                doc: doc@,
            },
        ),
        scope_is_bare(*final(scope)) == scope_is_bare(*old(scope)),
{
    scope.new_struct(name).derive(first_derive).derive(second_derive).vis(vis).doc(doc);
}

/// `Scope::raw` of `codegen`: the scope gets one more item, the text as it
/// is. Nothing else of the scope changes.
#[verifier::external_body]
fn scope_raw(scope: &mut Scope, text: &str)
    ensures
        scope_items(*final(scope)) == scope_items(*old(scope)).push(ItemView::Raw { text: text@ }),
        scope_is_bare(*final(scope)) == scope_is_bare(*old(scope)),
{
    scope.raw(text);
}

/// `Scope::to_string` of `codegen`: the text depends on what the scope holds
/// alone, so that for a bare scope it is a function of the items.
#[verifier::external_body]
fn scope_to_string(scope: &Scope) -> (text: String)
    requires
        scope_is_bare(*scope),
    ensures
        text@ == rendered(scope_items(*scope)),
{
    scope.to_string()
}

/// Lays out the items as source text.
pub fn render(items: &Vec<SourceItem>) -> (text: String)
    ensures
        text@ == rendered(items_view(items@)),
{
    let mut scope = scope_new();
    let mut i: usize = 0;
    while i < items.len()
        invariant
            i <= items@.len(),
            scope_is_bare(scope),
            scope_items(scope) == items_view(items@).take(i as int),
        decreases items@.len() - i,
    {
        match &items[i] {
            SourceItem::UnitStruct { name, first_derive, second_derive, vis, doc } => {
                scope_unit_struct(
                    &mut scope,
                    name.as_str(),
                    first_derive.as_str(),
                    second_derive.as_str(),
                    vis.as_str(),
                    doc.as_str(),
                );
            },
            SourceItem::Raw { text } => {
                scope_raw(&mut scope, text.as_str());
            },
        }
        assert(items_view(items@).take(i + 1) =~= items_view(items@).take(i as int).push(
            items@[i as int]@,
        ));
        i = i + 1;
    }
    assert(items_view(items@).take(i as int) =~= items_view(items@));
    scope_to_string(&scope)
}

/// Whether the name starts with `Pl`, as the names of character files do.
pub open spec fn starts_with_pl(name: Seq<char>) -> bool {
    name.len() >= 2 && name[0] == 'P' && name[1] == 'l'
}

/// Whether the node is a DAT file of a character.
pub open spec fn is_character_file(node: FsNodeView) -> bool {
    node is File && is_dat_name(node->File_name) && starts_with_pl(node->File_name)
}

/// What the names of the character files of the listing tell, in the order of
/// the listing, or `None` if the catalog does not know one of them.
pub open spec fn character_files_spec(files: Seq<FsNodeView>) -> Option<Seq<CharacterFileView>>
    decreases files.len(),
{
    if files.len() == 0 {
        Some(Seq::empty())
    } else {
        match character_files_spec(files.drop_last()) {
            None => None,
            Some(front) => if is_character_file(files.last()) {
                match classify_spec(files.last()->File_name) {
                    None => None,
                    Some(file) => Some(front.push(file)),
                }
            } else {
                Some(front)
            },
        }
    }
}

/// Whether the file holds an animation: its name ends in `AJ.dat`.
pub open spec fn is_animation(filename: Seq<char>) -> bool {
    filename.len() >= 6 && filename.subrange(filename.len() - 6, filename.len() as int)
        == seq!['A', 'J', '.', 'd', 'a', 't']
}

/// The documentation of the unit type of a character.
pub open spec fn struct_doc(name: Seq<char>) -> Seq<char> {
    "Supported files for "@ + name + "."@
}

/// The line that opens the constants of a character.
pub open spec fn impl_line(name: Seq<char>) -> Seq<char> {
    "impl "@ + name + " {"@
}

/// The comment in front of the constant of a file.
pub open spec fn comment_line(color: Option<Seq<char>>, copied: Option<Seq<char>>) -> Seq<char> {
    match (color, copied) {
        (Some(color), Some(copied)) => "    /// "@ + color + " costume, Copy Power ("@ + copied
            + "). "@,
        (None, Some(copied)) => "    /// Copy Power ("@ + copied + ")."@,
        (Some(color), None) => "    /// "@ + color + " costume. "@,
        (None, None) => "    /// Shared textures. "@,
    }
}

/// The constant of a file: it is named after the file without `.dat`, and
/// its value is the name of the file.
pub open spec fn const_line(filename: Seq<char>) -> Seq<char> {
    "    pub const "@ + filename.subrange(0, filename.len() - 4) + ": &'static str = \""@
        + filename + "\";"@
}

/// The items for the files among the first `upto` that belong to the
/// character `name`: a comment and a constant for each but the animations.
pub open spec fn members_spec(parsed: Seq<CharacterFileView>, name: Seq<char>, upto: int) -> Seq<
    ItemView,
>
    decreases upto,
{
    if upto <= 0 {
        Seq::empty()
    } else {
        let file = parsed[upto - 1];
        let front = members_spec(parsed, name, upto - 1);
        if file.name == name && !is_animation(file.filename) {
            front.push(ItemView::Raw { text: comment_line(file.color, file.kirby_copy) }).push(
                ItemView::Raw { text: const_line(file.filename) },
            )
        } else {
            front
        }
    }
}

/// The items for one character: its unit type and its constants.
pub open spec fn block_spec(parsed: Seq<CharacterFileView>, name: Seq<char>) -> Seq<ItemView> {
    seq![
        ItemView::UnitStruct {
            name,
            first_derive: "Debug"@,
            second_derive: "Clone"@,
            vis: "pub"@,
            doc: struct_doc(name),
        },
        ItemView::Raw { text: impl_line(name) },
    ] + members_spec(parsed, name, parsed.len() as int) + seq![ItemView::Raw { text: "}"@ }]
}

/// Whether the file at position `i` is the first of its character.
pub open spec fn is_first_of_character(parsed: Seq<CharacterFileView>, i: int) -> bool {
    forall|j: int| 0 <= j < i ==> (#[trigger] parsed[j]).name != parsed[i].name
}

/// The items for the characters that the first `upto` files name first.
pub open spec fn blocks_spec(parsed: Seq<CharacterFileView>, upto: int) -> Seq<ItemView>
    decreases upto,
{
    if upto <= 0 {
        Seq::empty()
    } else {
        let front = blocks_spec(parsed, upto - 1);
        if is_first_of_character(parsed, upto - 1) {
            front + block_spec(parsed, parsed[upto - 1].name)
        } else {
            front
        }
    }
}

/// The items of the catalog for a listing, or `None` if the catalog does not
/// know the name of one of its character files.
pub open spec fn catalog_items_spec(files: Seq<FsNodeView>) -> Option<Seq<ItemView>> {
    match character_files_spec(files) {
        None => None,
        Some(parsed) => Some(blocks_spec(parsed, parsed.len() as int)),
    }
}

/// The values of a list of character files.
pub open spec fn parsed_view(parsed: Seq<CharacterFile>) -> Seq<CharacterFileView> {
    parsed.map_values(|file: CharacterFile| file@)
}

/// Tells whether the name starts with `Pl`.
pub fn has_pl_prefix(name: &str) -> (starts: bool)
    ensures
        starts == starts_with_pl(name@),
{
    let length = name.unicode_len();
    length >= 2 && name.get_char(0) == 'P' && name.get_char(1) == 'l'
}

/// Reads off the names of the character files of the listing what the files
/// hold.
///
/// Returns `None` exactly when the catalog does not know the name of one of
/// the character files.
pub fn character_files(files: &Vec<FsNode>) -> (parsed: Option<Vec<CharacterFile>>)
    ensures
        match character_files_spec(nodes_view(files@)) {
            Some(view) => parsed matches Some(p) && parsed_view(p@) == view,
            None => parsed is None,
        },
{
    let ghost nodes = nodes_view(files@);
    let mut parsed: Vec<CharacterFile> = Vec::new();
    let mut i: usize = 0;
    while i < files.len()
        invariant
            i <= files@.len(),
            nodes == nodes_view(files@),
            character_files_spec(nodes.take(i as int)) == Some(parsed_view(parsed@)),
        decreases files@.len() - i,
    {
        proof {
            assert(nodes.take(i + 1).drop_last() =~= nodes.take(i as int));
            assert(nodes.take(i + 1).last() == files@[i as int]@);
            lemma_unknown_file_fails(nodes, i + 1);
        }
        match &files[i] {
            FsNode::Directory { .. } => {},
            FsNode::File { name, .. } => {
                if has_dat_suffix(name.as_str()) && has_pl_prefix(name.as_str()) {
                    match CharacterFile::from_str(name.as_str()) {
                        None => {
                            return None;
                        },
                        Some(file) => {
                            let ghost before = parsed@;
                            parsed.push(file);
                            assert(parsed_view(parsed@) =~= parsed_view(before).push(file@));
                        },
                    }
                }
            },
        }
        i = i + 1;
    }
    assert(nodes.take(i as int) =~= nodes);
    Some(parsed)
}

/// Once a part of the listing holds a file that the catalog does not know,
/// so does the whole listing.
proof fn lemma_unknown_file_fails(files: Seq<FsNodeView>, i: int)
    requires
        0 <= i <= files.len(),
    ensures
        character_files_spec(files.take(i)) is None ==> character_files_spec(files) is None,
    decreases files.len() - i,
{
    if i == files.len() {
        assert(files.take(i) =~= files);
    } else {
        assert(files.take(i + 1).drop_last() =~= files.take(i));
        lemma_unknown_file_fails(files, i + 1);
    }
}

/// Tells whether the name ends in `AJ.dat`.
pub fn names_animation(filename: &str) -> (animation: bool)
    ensures
        animation == is_animation(filename@),
{
    let length = filename.unicode_len();
    if length < 6 {
        return false;
    }
    let animation = filename.get_char(length - 6) == 'A' && filename.get_char(length - 5) == 'J'
        && filename.get_char(length - 4) == '.' && filename.get_char(length - 3) == 'd'
        && filename.get_char(length - 2) == 'a' && filename.get_char(length - 1) == 't';
    proof {
        let tail = filename@.subrange(filename@.len() - 6, filename@.len() as int);
        assert(tail[0] == filename@[length - 6]);
        assert(tail[1] == filename@[length - 5]);
        assert(tail[2] == filename@[length - 4]);
        assert(tail[3] == filename@[length - 3]);
        assert(tail[4] == filename@[length - 2]);
        assert(tail[5] == filename@[length - 1]);
        if animation {
            assert(tail =~= seq!['A', 'J', '.', 'd', 'a', 't']);
        }
    }
    animation
}

/// Writes the comment in front of the constant of a file.
fn comment_of(file: &CharacterFile) -> (text: String)
    ensures
        text@ == comment_line(file@.color, file@.kirby_copy),
{
    let mut text = "    /// ".to_owned();
    match (&file.color, &file.kirby_copy) {
        (Some(color), Some(copied)) => {
            text.append(color.as_str());
            text.append(" costume, Copy Power (");
            text.append(copied.as_str());
            text.append("). ");
        },
        (None, Some(copied)) => {
            text.append("Copy Power (");
            text.append(copied.as_str());
            text.append(").");
            proof {
                reveal_strlit("    /// ");
                reveal_strlit("Copy Power (");
                reveal_strlit("    /// Copy Power (");
                assert("    /// "@ + "Copy Power ("@ =~= "    /// Copy Power ("@);
                assert(text@ =~= "    /// Copy Power ("@ + copied@ + ")."@);
            }
        },
        (Some(color), None) => {
            text.append(color.as_str());
            text.append(" costume. ");
        },
        (None, None) => {
            text.append("Shared textures. ");
            proof {
                reveal_strlit("    /// ");
                reveal_strlit("Shared textures. ");
                reveal_strlit("    /// Shared textures. ");
                assert(text@ =~= "    /// Shared textures. "@);
            }
        },
    }
    text
}

/// Writes the constant of a file.
fn const_of(filename: &str) -> (text: String)
    requires
        filename@.len() >= 4,
    ensures
        text@ == const_line(filename@),
{
    let length = filename.unicode_len();
    let stem = filename.substring_char(0, length - 4);
    let mut text = "    pub const ".to_owned();
    text.append(stem);
    text.append(": &'static str = \"");
    text.append(filename);
    text.append("\";");
    text
}

/// Tells whether the file at position `i` is the first of its character.
fn first_of_character(parsed: &Vec<CharacterFile>, i: usize) -> (first: bool)
    requires
        i < parsed@.len(),
    ensures
        first == is_first_of_character(parsed_view(parsed@), i as int),
{
    let mut j: usize = 0;
    while j < i
        invariant
            j <= i,
            i < parsed@.len(),
            forall|k: int| 0 <= k < j ==> (#[trigger] parsed_view(parsed@)[k]).name != parsed_view(
                parsed@,
            )[i as int].name,
        decreases i - j,
    {
        if parsed[j].name == parsed[i].name {
            assert(parsed_view(parsed@)[j as int].name == parsed_view(parsed@)[i as int].name);
            return false;
        }
        j = j + 1;
    }
    true
}

/// The items of the catalog for a listing.
///
/// Returns `None` exactly when the catalog does not know the name of one of
/// the character files of the listing.
pub fn catalog_items(files: &Vec<FsNode>) -> (items: Option<Vec<SourceItem>>)
    ensures
        match catalog_items_spec(nodes_view(files@)) {
            Some(view) => items matches Some(i) && items_view(i@) == view,
            None => items is None,
        },
{
    let parsed = match character_files(files) {
        Some(parsed) => parsed,
        None => {
            return None;
        },
    };
    let ghost view = parsed_view(parsed@);
    proof {
        lemma_files_have_dat_names(nodes_view(files@), view);
    }
    let mut items: Vec<SourceItem> = Vec::new();
    let mut i: usize = 0;
    while i < parsed.len()
        invariant
            i <= parsed@.len(),
            view == parsed_view(parsed@),
            forall|k: int| 0 <= k < view.len() ==> (#[trigger] view[k]).filename.len() >= 4,
            items_view(items@) == blocks_spec(view, i as int),
        decreases parsed@.len() - i,
    {
        if first_of_character(&parsed, i) {
            let ghost start = items_view(items@);
            let name = &parsed[i].name;
            assert(name@ == view[i as int].name);
            let mut doc = "Supported files for ".to_owned();
            doc.append(name.as_str());
            doc.append(".");
            let mut opening = "impl ".to_owned();
            opening.append(name.as_str());
            opening.append(" {");
            items.push(
                SourceItem::UnitStruct {
                    name: name.clone(),
                    first_derive: "Debug".to_owned(),
                    second_derive: "Clone".to_owned(),
                    vis: "pub".to_owned(),
                    doc,
                },
            );
            items.push(SourceItem::Raw { text: opening });
            let ghost head = seq![
                ItemView::UnitStruct {
                    name: name@,
                    first_derive: "Debug"@,
                    second_derive: "Clone"@,
                    vis: "pub"@,
                    doc: struct_doc(name@),
                },
                ItemView::Raw { text: impl_line(name@) },
            ];
            assert(items_view(items@) =~= start + head);
            let mut j: usize = 0;
            while j < parsed.len()
                invariant
                    j <= parsed@.len(),
                    view == parsed_view(parsed@),
                    forall|k: int| 0 <= k < view.len() ==> (#[trigger] view[k]).filename.len() >= 4,
                    i < parsed@.len(),
                    name@ == view[i as int].name,
                    items_view(items@) == start + head + members_spec(view, name@, j as int),
                decreases parsed@.len() - j,
            {
                let file = &parsed[j];
                assert(file@ == view[j as int]);
                if file.name == *name && !names_animation(file.filename.as_str()) {
                    let ghost before = items_view(items@);
                    let comment = comment_of(file);
                    let constant = const_of(file.filename.as_str());
                    items.push(SourceItem::Raw { text: comment });
                    items.push(SourceItem::Raw { text: constant });
                    assert(items_view(items@) =~= before.push(
                        ItemView::Raw { text: comment_line(file@.color, file@.kirby_copy) },
                    ).push(ItemView::Raw { text: const_line(file@.filename) }));
                    assert(items_view(items@) =~= start + head + members_spec(
                        view,
                        name@,
                        j + 1,
                    ));
                }
                j = j + 1;
            }
            let ghost before = items_view(items@);
            items.push(SourceItem::Raw { text: "}".to_owned() });
            assert(items_view(items@) =~= before.push(ItemView::Raw { text: "}"@ }));
            assert(items_view(items@) =~= start + block_spec(view, name@));
        }
        i = i + 1;
    }
    Some(items)
}

/// The names of the files that the listing gives are names of DAT files, and
/// so at least four characters long.
proof fn lemma_files_have_dat_names(files: Seq<FsNodeView>, parsed: Seq<CharacterFileView>)
    requires
        character_files_spec(files) == Some(parsed),
    ensures
        forall|k: int| 0 <= k < parsed.len() ==> (#[trigger] parsed[k]).filename.len() >= 4,
    decreases files.len(),
{
    if files.len() > 0 {
        let front = character_files_spec(files.drop_last())->Some_0;
        lemma_files_have_dat_names(files.drop_last(), front);
    }
}

/// The source text of the catalog for a listing.
///
/// Returns `None` exactly when the catalog does not know the name of one of
/// the character files of the listing.
pub fn catalog(files: &Vec<FsNode>) -> (text: Option<String>)
    ensures
        match catalog_items_spec(nodes_view(files@)) {
            Some(items) => text matches Some(t) && t@ == rendered(items),
            None => text is None,
        },
{
    match catalog_items(files) {
        Some(items) => Some(render(&items)),
        None => None,
    }
}

} // verus!
