//! The tree that `mpq tree` shows: the archive, its header and tables, its
//! entries grouped by directory, and its special files.

use vstd::prelude::*;
use crate::command::VersionArg;
use crate::compare::optional;
use crate::listing::{
    EntryInfo, filter_names, find_entry, find_entry_index, pattern_of, selected, string_views,
};
use crate::mpq_path::{base_name, base_name_of, dir_key, dir_key_of, trim_suffixes, trim_suffixes_of};
use crate::order::{chars_eq, chars_views, dedup_sorted, sort_chars, strictly_sorted};
use crate::text::{
    after_last, chars_of, lemma_single_component_is_plain, lowercase, occurs_in, opt_view,
    path_extension, path_file_name, plain_file_path, single_component, spec_extension,
    str_contains, str_eq, string_of, to_lowercase,
};

verus! {

/// What a node of the tree stands for.
#[derive(Clone, Copy, Debug, PartialEq, Eq, Structural)]
pub enum NodeKind {
    Root,
    Header,
    Table,
    Directory,
    File,
}

/// The name of a metadata item of a node.
#[derive(Clone, Copy, Debug, PartialEq, Eq, Structural)]
pub enum MetaKey {
    Format,
    Files,
    Version,
    SectorSize,
    Entries,
    Encrypted,
    Type,
    Purpose,
    Count,
    CompressedSize,
    CompressionRatio,
}

/// The fixed descriptive texts of the tree.
#[derive(Clone, Copy, Debug, PartialEq, Eq, Structural)]
pub enum Label {
    /// `true`.
    Yes,
    ExtendedHashTable,
    ExtendedBlockTable,
    /// The format name `v4`.
    FormatV4,
    AutoGeneratedFileList,
    FileEnumeration,
    FileAttributes,
    CrcChecksumsAndTimestamps,
    DigitalSignature,
    ArchiveIntegrityVerification,
}

/// What kind of content an entry holds, judged by its extension.
#[derive(Clone, Copy, Debug, PartialEq, Eq, Structural)]
pub enum FileType {
    Texture,
    Model,
    WorldMapDefinition,
    TerrainData,
    LowResTerrain,
    Database,
    Script,
    InterfaceDefinition,
    AddOnManifest,
    Audio,
    Data,
}

/// The value of a metadata item.
#[derive(Clone, Copy, Debug, PartialEq, Eq, Structural)]
pub enum MetaValue {
    Version(VersionArg),
    Count(usize),
    Bytes(u64),
    /// A compression ratio: the uncompressed and the compressed size.
    Ratio(u64, u64),
    Label(Label),
    FileType(FileType),
}

/// The kind of file that an external reference points to, named by a
/// sample file of that kind.
#[derive(Clone, Copy, Debug, PartialEq, Eq, Structural)]
pub enum RefTarget {
    /// Like `file.adt`.
    Adt,
    /// Like `file.blp`.
    Blp,
    /// Like `file.m2`.
    M2,
    /// Like `file.skin`.
    Skin,
}

/// A reference from an entry to files outside the archive.
pub struct ExternalRef {
    pub pattern: String,
    pub target: RefTarget,
}

/// A node of the tree.
pub struct TreeNode {
    pub name: String,
    pub kind: NodeKind,
    pub size: Option<u64>,
    pub metadata: Vec<(MetaKey, MetaValue)>,
    pub external_refs: Vec<ExternalRef>,
    pub children: Vec<TreeNode>,
}

/// The content kind of an entry whose lowercased extension is `ext`.
pub open spec fn file_type_of(ext: Seq<char>) -> FileType {
    if ext == "blp"@ {
        FileType::Texture
    } else if ext == "m2"@ || ext == "mdx"@ {
        FileType::Model
    } else if ext == "wdt"@ {
        FileType::WorldMapDefinition
    } else if ext == "adt"@ {
        FileType::TerrainData
    } else if ext == "wdl"@ {
        FileType::LowResTerrain
    } else if ext == "dbc"@ {
        FileType::Database
    } else if ext == "lua"@ {
        FileType::Script
    } else if ext == "xml"@ {
        FileType::InterfaceDefinition
    } else if ext == "toc"@ {
        FileType::AddOnManifest
    } else if ext == "wav"@ || ext == "mp3"@ {
        FileType::Audio
    } else {
        FileType::Data
    }
}

/// The external references of an entry named `name` whose lowercased
/// extension is `ext`, given the lowercased name `lower_name`: a world map
/// points to its terrain tiles, terrain to textures and models, a model to
/// its skin and textures, and a database whose name mentions items to the
/// icon textures.
pub open spec fn spec_external_refs_given(name: Seq<char>, ext: Seq<char>, lower_name: Seq<char>) -> Seq<
    (Seq<char>, RefTarget),
> {
    if ext == "wdt"@ {
        seq![(trim_suffixes(name, ".wdt"@) + "/*.adt"@, RefTarget::Adt)]
    } else if ext == "adt"@ {
        seq![("*.blp"@, RefTarget::Blp), ("*.m2"@, RefTarget::M2)]
    } else if ext == "m2"@ {
        seq![(trim_suffixes(name, ".m2"@) + ".skin"@, RefTarget::Skin), ("*.blp"@, RefTarget::Blp)]
    } else if ext == "dbc"@ && occurs_in("item"@, lower_name) {
        seq![("Interface/Icons/*.blp"@, RefTarget::Blp)]
    } else {
        Seq::empty()
    }
}

/// The external references of an entry named `name` whose lowercased
/// extension is `ext`.
pub open spec fn spec_external_refs(name: Seq<char>, ext: Seq<char>) -> Seq<(Seq<char>, RefTarget)> {
    spec_external_refs_given(name, ext, lowercase(name))
}

/// The references of a node, as plain values.
pub open spec fn refs_view(refs: Seq<ExternalRef>) -> Seq<(Seq<char>, RefTarget)> {
    refs.map_values(|r: ExternalRef| (r.pattern@, r.target))
}

/// The first file-table entry for an archive path, if there is one.
pub open spec fn entry_for(entries: Seq<EntryInfo>, path: Seq<char>) -> Option<EntryInfo> {
    match find_entry(entries, path) {
        Some(i) => Some(entries[i]),
        None => None,
    }
}

/// The metadata of an entry's node: its compressed size and compression
/// ratio when the file table knows it, then its content kind.
pub open spec fn file_metadata(entry: Option<EntryInfo>, ty: FileType) -> Seq<(MetaKey, MetaValue)> {
    match entry {
        Some(e) => seq![
            (MetaKey::CompressedSize, MetaValue::Bytes(e.compressed_size)),
            (MetaKey::CompressionRatio, MetaValue::Ratio(e.size, e.compressed_size)),
            (MetaKey::Type, MetaValue::FileType(ty)),
        ],
        None => seq![(MetaKey::Type, MetaValue::FileType(ty))],
    }
}

/// `n` is the node of the entry at archive path `path`, given the extension
/// `ext` of its final component (empty when it has none).
pub open spec fn is_file_node(
    n: TreeNode,
    path: Seq<char>,
    ext: Seq<char>,
    entries: Seq<EntryInfo>,
    show_external_refs: bool,
) -> bool {
    let name = base_name(path);
    let lower = lowercase(ext);
    let entry = entry_for(entries, path);
    &&& n.name@ == name
    &&& n.kind == NodeKind::File
    &&& n.size == match entry {
        Some(e) => Some(e.size),
        None => None,
    }
    &&& n.metadata@ == file_metadata(entry, file_type_of(lower))
    &&& refs_view(n.external_refs@) == if show_external_refs {
        spec_external_refs(name, lower)
    } else {
        Seq::empty()
    }
    &&& n.children@.len() == 0
}

/// What holds of any extension found in a final component `name`: it holds
/// no `.` and follows a `.` in `name`.
pub open spec fn extension_in(ext: Option<Seq<char>>, name: Seq<char>) -> bool {
    match ext {
        Some(e) => !e.contains('.') && occurs_in(seq!['.'] + e, name),
        None => true,
    }
}

/// An extension, or the empty text when there is none.
pub open spec fn extension_text(ext: Option<Seq<char>>) -> Seq<char> {
    match ext {
        Some(e) => e,
        None => Seq::empty(),
    }
}

/// `n` is the node of the entry at archive path `path`. Its extension is
/// that of the final component of `path`'s part after the last `\`: by the
/// documented rule when that part reads the same on every platform, else
/// some extension that the part can have (how such a part splits depends on
/// the platform).
pub open spec fn is_entry_node(
    n: TreeNode,
    path: Seq<char>,
    entries: Seq<EntryInfo>,
    show_external_refs: bool,
) -> bool {
    let name = base_name(path);
    if plain_file_path(name) {
        is_file_node(
            n,
            path,
            extension_text(spec_extension(after_last(name, '/'))),
            entries,
            show_external_refs,
        )
    } else {
        exists|ext: Option<Seq<char>>|
            extension_in(ext, name) && #[trigger] is_file_node(
                n,
                path,
                extension_text(ext),
                entries,
                show_external_refs,
            )
    }
}

/// The content kind for a lowercased extension.
pub fn file_type_for(ext: &str) -> (r: FileType)
    ensures
        r == file_type_of(ext@),
{
    if str_eq(ext, "blp") {
        FileType::Texture
    } else if str_eq(ext, "m2") || str_eq(ext, "mdx") {
        FileType::Model
    } else if str_eq(ext, "wdt") {
        FileType::WorldMapDefinition
    } else if str_eq(ext, "adt") {
        FileType::TerrainData
    } else if str_eq(ext, "wdl") {
        FileType::LowResTerrain
    } else if str_eq(ext, "dbc") {
        FileType::Database
    } else if str_eq(ext, "lua") {
        FileType::Script
    } else if str_eq(ext, "xml") {
        FileType::InterfaceDefinition
    } else if str_eq(ext, "toc") {
        FileType::AddOnManifest
    } else if str_eq(ext, "wav") || str_eq(ext, "mp3") {
        FileType::Audio
    } else {
        FileType::Data
    }
}

/// `name` without its trailing copies of `suffix`, followed by `tail`.
fn trimmed_with(name: &str, suffix: &str, tail: &str) -> (r: String)
    ensures
        r@ == trim_suffixes(name@, suffix@) + tail@,
{
    let mut base = trim_suffixes_of(&chars_of(name), &chars_of(suffix));
    let mut rest = chars_of(tail);
    base.append(&mut rest);
    string_of(&base)
}

fn external_ref(pattern: &str, target: RefTarget) -> (r: ExternalRef)
    ensures
        r.pattern@ == pattern@,
        r.target == target,
{
    ExternalRef { pattern: pattern.to_owned(), target }
}

/// The external references of an entry named `name` with lowercased
/// extension `ext`, given its lowercased name `lower_name`.
pub fn external_refs_given(name: &str, ext: &str, lower_name: &str) -> (r: Vec<ExternalRef>)
    ensures
        refs_view(r@) == spec_external_refs_given(name@, ext@, lower_name@),
{
    let mut refs: Vec<ExternalRef> = Vec::new();
    if str_eq(ext, "wdt") {
        let p = trimmed_with(name, ".wdt", "/*.adt");
        refs.push(ExternalRef { pattern: p, target: RefTarget::Adt });
    } else if str_eq(ext, "adt") {
        refs.push(external_ref("*.blp", RefTarget::Blp));
        refs.push(external_ref("*.m2", RefTarget::M2));
    } else if str_eq(ext, "m2") {
        let p = trimmed_with(name, ".m2", ".skin");
        refs.push(ExternalRef { pattern: p, target: RefTarget::Skin });
        refs.push(external_ref("*.blp", RefTarget::Blp));
    } else if str_eq(ext, "dbc") {
        if str_contains(lower_name, "item") {
            refs.push(external_ref("Interface/Icons/*.blp", RefTarget::Blp));
        }
    }
    proof {
        assert(refs_view(refs@) =~= spec_external_refs_given(name@, ext@, lower_name@));
    }
    refs
}

/// The external references of an entry named `name` with lowercased
/// extension `ext`.
pub fn external_refs_for(name: &str, ext: &str) -> (r: Vec<ExternalRef>)
    ensures
        refs_view(r@) == spec_external_refs(name@, ext@),
{
    let lower_name = to_lowercase(name);
    external_refs_given(name, ext, lower_name.as_str())
}

/// The node of the entry at archive path `file_path`, given the extension
/// of its final component (empty when it has none).
pub fn file_node_with_extension(
    file_path: &str,
    extension: &str,
    entries: &Vec<EntryInfo>,
    show_external_refs: bool,
) -> (n: TreeNode)
    ensures
        is_file_node(n, file_path@, extension@, entries@, show_external_refs),
{
    let name = base_name_of(file_path);
    let lower = to_lowercase(extension);
    let ty = file_type_for(lower.as_str());
    let mut metadata: Vec<(MetaKey, MetaValue)> = Vec::new();
    let mut size: Option<u64> = None;
    match find_entry_index(entries, file_path) {
        Some(i) => {
            let e = &entries[i];
            size = Some(e.size);
            metadata.push((MetaKey::CompressedSize, MetaValue::Bytes(e.compressed_size)));
            metadata.push((MetaKey::CompressionRatio, MetaValue::Ratio(e.size, e.compressed_size)));
        },
        None => {},
    }
    metadata.push((MetaKey::Type, MetaValue::FileType(ty)));
    let external_refs = if show_external_refs {
        external_refs_for(name.as_str(), lower.as_str())
    } else {
        Vec::new()
    };
    proof {
        assert(metadata@ =~= file_metadata(entry_for(entries@, file_path@), ty));
        if !show_external_refs {
            assert(refs_view(external_refs@) =~= Seq::<(Seq<char>, RefTarget)>::empty());
        }
    }
    TreeNode {
        name,
        kind: NodeKind::File,
        size,
        metadata,
        external_refs,
        children: Vec::new(),
    }
}

/// The node of the entry at archive path `file_path`; its extension is
/// that of the path's final component, as the platform reads it.
pub fn file_node(file_path: &str, entries: &Vec<EntryInfo>, show_external_refs: bool) -> (n:
    TreeNode)
    ensures
        is_entry_node(n, file_path@, entries@, show_external_refs),
        !base_name(file_path@).contains('.') ==> is_file_node(
            n,
            file_path@,
            Seq::empty(),
            entries@,
            show_external_refs,
        ),
{
    let name = base_name_of(file_path);
    let ext = path_extension(name.as_str());
    let ghost ext_view: Option<Seq<char>> = match &ext {
        Some(e) => Some(e@),
        None => None,
    };
    let n = match &ext {
        Some(e) => file_node_with_extension(file_path, e.as_str(), entries, show_external_refs),
        None => {
            let n = file_node_with_extension(file_path, "", entries, show_external_refs);
            proof {
                reveal_strlit("");
                assert(""@ =~= Seq::<char>::empty());
            }
            n
        },
    };
    proof {
        assert(ext_view == opt_view(ext));
        assert(extension_in(ext_view, base_name(file_path@)));
        assert(is_file_node(n, file_path@, extension_text(ext_view), entries@, show_external_refs));
    }
    n
}


/// `nodes` are the nodes of the entries at `paths`, in order.
pub open spec fn entry_nodes_ok(
    nodes: Seq<TreeNode>,
    paths: Seq<Seq<char>>,
    entries: Seq<EntryInfo>,
    show_external_refs: bool,
) -> bool {
    &&& nodes.len() == paths.len()
    &&& forall|i: int|
        0 <= i < nodes.len() ==> #[trigger] is_entry_node(
            nodes[i],
            paths[i],
            entries,
            show_external_refs,
        )
}

/// Membership of an archive path in the directory `key`.
pub open spec fn in_dir(key: Seq<char>) -> spec_fn(Seq<char>) -> bool {
    |n: Seq<char>| dir_key(n) == key
}

/// `n` is the node of directory `key`, named by the directory's final
/// component and a `/`, holding the nodes of its entries `group`.
pub open spec fn is_dir_node(
    n: TreeNode,
    key: Seq<char>,
    group: Seq<Seq<char>>,
    entries: Seq<EntryInfo>,
    show_external_refs: bool,
) -> bool {
    &&& n.name@ == base_name(key) + "/"@
    &&& n.kind == NodeKind::Directory
    &&& n.size is None
    &&& n.metadata@ == seq![(MetaKey::Files, MetaValue::Count(group.len() as usize))]
    &&& n.external_refs@.len() == 0
    &&& entry_nodes_ok(n.children@, group, entries, show_external_refs)
}

/// `children` hold, directory by directory in the order of `keys`, the
/// nodes of the entries `names`: the entries outside any directory (key
/// `/`) directly, those of any other directory inside its directory node.
pub open spec fn groups_ok(
    children: Seq<TreeNode>,
    keys: Seq<Seq<char>>,
    names: Seq<Seq<char>>,
    entries: Seq<EntryInfo>,
    show_external_refs: bool,
) -> bool
    decreases keys.len(),
{
    if keys.len() == 0 {
        children.len() == 0
    } else {
        let key = keys.last();
        let group = names.filter(in_dir(key));
        if key == "/"@ {
            &&& children.len() >= group.len()
            &&& entry_nodes_ok(
                children.skip(children.len() - group.len()),
                group,
                entries,
                show_external_refs,
            )
            &&& groups_ok(
                children.take(children.len() - group.len()),
                keys.drop_last(),
                names,
                entries,
                show_external_refs,
            )
        } else {
            &&& children.len() >= 1
            &&& is_dir_node(children.last(), key, group, entries, show_external_refs)
            &&& groups_ok(children.drop_last(), keys.drop_last(), names, entries, show_external_refs)
        }
    }
}

/// `keys` are the directories of the archive paths `names`, each once, in
/// the listing order.
pub open spec fn dir_keys_of(keys: Seq<Seq<char>>, names: Seq<Seq<char>>) -> bool {
    &&& strictly_sorted(keys)
    &&& keys.to_set() == names.map_values(|n: Seq<char>| dir_key(n)).to_set()
}

/// `n` is the `Files` node: the number of chosen entries, and their nodes
/// grouped by directory.
pub open spec fn is_files_node(
    n: TreeNode,
    chosen: Seq<Seq<char>>,
    entries: Seq<EntryInfo>,
    show_external_refs: bool,
) -> bool {
    &&& n.name@ == "Files"@
    &&& n.kind == NodeKind::Directory
    &&& n.size is None
    &&& n.metadata@ == seq![(MetaKey::Count, MetaValue::Count(chosen.len() as usize))]
    &&& n.external_refs@.len() == 0
    &&& exists|keys: Seq<Seq<char>>|
        dir_keys_of(keys, chosen) && #[trigger] groups_ok(
            n.children@,
            keys,
            chosen,
            entries,
            show_external_refs,
        )
}

/// The nodes of the chosen entries in directory `key`, in their order.
fn group_nodes(
    chosen: &Vec<String>,
    name_keys: &Vec<Vec<char>>,
    key: &Vec<char>,
    entries: &Vec<EntryInfo>,
    show_external_refs: bool,
) -> (r: Vec<TreeNode>)
    requires
        chars_views(name_keys@) == string_views(chosen@).map_values(|n: Seq<char>| dir_key(n)),
    ensures
        entry_nodes_ok(
            r@,
            string_views(chosen@).filter(in_dir(key@)),
            entries@,
            show_external_refs,
        ),
{
    let ghost names = string_views(chosen@);
    let ghost pred = in_dir(key@);
    let mut r: Vec<TreeNode> = Vec::new();
    let n = chosen.len();
    assert(chars_views(name_keys@).len() == name_keys@.len());
    for i in 0..n
        invariant
            n == chosen@.len(),
            names == string_views(chosen@),
            pred == in_dir(key@),
            chars_views(name_keys@) == names.map_values(|n: Seq<char>| dir_key(n)),
            name_keys@.len() == n,
            entry_nodes_ok(r@, names.take(i as int).filter(pred), entries@, show_external_refs),
    {
        proof {
            assert(names.take(i + 1) =~= names.take(i as int).push(names[i as int]));
            names.take(i as int).lemma_filter_push(names[i as int], pred);
            assert(chars_views(name_keys@)[i as int] == dir_key(names[i as int]));
        }
        if chars_eq(&name_keys[i], key) {
            let node = file_node(chosen[i].as_str(), entries, show_external_refs);
            let ghost before = r@;
            r.push(node);
            proof {
                let paths = names.take(i + 1).filter(pred);
                assert forall|t: int| 0 <= t < r@.len() implies #[trigger] is_entry_node(
                    r@[t],
                    paths[t],
                    entries@,
                    show_external_refs,
                ) by {
                    if t < before.len() {
                        assert(r@[t] == before[t]);
                    }
                }
            }
        }
    }
    proof {
        assert(names.take(n as int) =~= names);
    }
    r
}

/// The directory keys of the chosen entries, in their order.
fn name_dir_keys(chosen: &Vec<String>) -> (r: Vec<Vec<char>>)
    ensures
        chars_views(r@) == string_views(chosen@).map_values(|n: Seq<char>| dir_key(n)),
{
    let mut r: Vec<Vec<char>> = Vec::new();
    let n = chosen.len();
    for i in 0..n
        invariant
            n == chosen@.len(),
            chars_views(r@) =~= string_views(chosen@.take(i as int)).map_values(
                |n: Seq<char>| dir_key(n),
            ),
    {
        let k = dir_key_of(chosen[i].as_str());
        r.push(k);
        proof {
            assert(string_views(chosen@.take(i + 1)).map_values(|n: Seq<char>| dir_key(n))
                =~= string_views(chosen@.take(i as int)).map_values(|n: Seq<char>| dir_key(n)).push(
                dir_key(chosen@[i as int]@),
            ));
        }
    }
    proof {
        assert(chosen@.take(n as int) =~= chosen@);
    }
    r
}

/// The node of directory `key` holding `children`, the nodes of its entries.
fn dir_node(key: &Vec<char>, children: Vec<TreeNode>, count: usize) -> (n: TreeNode)
    ensures
        n.name@ == base_name(key@) + "/"@,
        n.kind == NodeKind::Directory,
        n.size is None,
        n.metadata@ == seq![(MetaKey::Files, MetaValue::Count(count))],
        n.external_refs@.len() == 0,
        n.children == children,
{
    let key_str = string_of(key);
    let base = base_name_of(key_str.as_str());
    let mut name = chars_of(base.as_str());
    let mut slash = chars_of("/");
    name.append(&mut slash);
    let mut metadata: Vec<(MetaKey, MetaValue)> = Vec::new();
    metadata.push((MetaKey::Files, MetaValue::Count(count)));
    TreeNode {
        name: string_of(&name),
        kind: NodeKind::Directory,
        size: None,
        metadata,
        external_refs: Vec::new(),
        children,
    }
}

/// The `Files` node of the chosen entries.
pub fn files_node(chosen: &Vec<String>, entries: &Vec<EntryInfo>, show_external_refs: bool) -> (n:
    TreeNode)
    ensures
        is_files_node(n, string_views(chosen@), entries@, show_external_refs),
{
    let ghost names = string_views(chosen@);
    let name_keys = name_dir_keys(chosen);
    let sorted = sort_chars(name_dir_keys(chosen));
    let keys = dedup_sorted(sorted);
    proof {
        broadcast use vstd::seq_lib::group_to_multiset_ensures;
        let a = chars_views(sorted@);
        let b = chars_views(name_keys@);
        a.to_multiset_ensures();
        b.to_multiset_ensures();
        assert forall|x: Seq<char>| #[trigger] a.to_set().contains(x) == b.to_set().contains(x) by {
            assert(a.contains(x) <==> a.to_multiset().count(x) > 0);
            assert(b.contains(x) <==> b.to_multiset().count(x) > 0);
        }
        assert(a.to_set() =~= b.to_set());
    }
    let slash = chars_of("/");
    let mut children: Vec<TreeNode> = Vec::new();
    let nk = keys.len();
    for t in 0..nk
        invariant
            nk == keys@.len(),
            slash@ == "/"@,
            names == string_views(chosen@),
            chars_views(name_keys@) == names.map_values(|n: Seq<char>| dir_key(n)),
            groups_ok(
                children@,
                chars_views(keys@).take(t as int),
                names,
                entries@,
                show_external_refs,
            ),
    {
        let group = group_nodes(chosen, &name_keys, &keys[t], entries, show_external_refs);
        let ghost kv = chars_views(keys@);
        let ghost before = children@;
        proof {
            assert(kv.take(t + 1).drop_last() =~= kv.take(t as int));
            assert(kv.take(t + 1).last() == keys@[t as int]@);
        }
        if chars_eq(&keys[t], &slash) {
            let ghost glen = group@.len();
            let mut g = group;
            children.append(&mut g);
            proof {
                assert(children@.skip(children@.len() - glen) =~= group@);
                assert(children@.take(children@.len() - glen) =~= before);
            }
        } else {
            let count = group.len();
            let d = dir_node(&keys[t], group, count);
            children.push(d);
            proof {
                assert(children@.drop_last() =~= before);
            }
        }
    }
    proof {
        assert(chars_views(keys@).take(nk as int) =~= chars_views(keys@));
    }
    let mut metadata: Vec<(MetaKey, MetaValue)> = Vec::new();
    metadata.push((MetaKey::Count, MetaValue::Count(chosen.len())));
    let n = TreeNode {
        name: "Files".to_owned(),
        kind: NodeKind::Directory,
        size: None,
        metadata,
        external_refs: Vec::new(),
        children,
    };
    proof {
        assert(dir_keys_of(chars_views(keys@), names));
        assert(groups_ok(n.children@, chars_views(keys@), names, entries@, show_external_refs));
    }
    n
}


/// The number of entries that the children of a `Files` node stand for:
/// one for each entry node, and one for each entry of a directory node.
pub open spec fn entry_count(children: Seq<TreeNode>) -> nat
    decreases children.len(),
{
    if children.len() == 0 {
        0
    } else {
        entry_count(children.drop_last()) + if children.last().kind == NodeKind::Directory {
            children.last().children@.len()
        } else {
            1
        }
    }
}

/// The number of entries that the directories `keys` hold between them.
pub open spec fn grouped_count(keys: Seq<Seq<char>>, names: Seq<Seq<char>>) -> nat
    decreases keys.len(),
{
    if keys.len() == 0 {
        0
    } else {
        grouped_count(keys.drop_last(), names) + names.filter(in_dir(keys.last())).len()
    }
}

proof fn lemma_entry_count_append(a: Seq<TreeNode>, b: Seq<TreeNode>)
    ensures
        entry_count(a + b) == entry_count(a) + entry_count(b),
    decreases b.len(),
{
    if b.len() > 0 {
        lemma_entry_count_append(a, b.drop_last());
        assert((a + b).drop_last() =~= a + b.drop_last());
    } else {
        assert(a + b =~= a);
    }
}

proof fn lemma_entry_count_files(nodes: Seq<TreeNode>)
    requires
        forall|i: int| 0 <= i < nodes.len() ==> (#[trigger] nodes[i]).kind == NodeKind::File,
    ensures
        entry_count(nodes) == nodes.len(),
    decreases nodes.len(),
{
    if nodes.len() > 0 {
        lemma_entry_count_files(nodes.drop_last());
        assert(nodes.last() == nodes[nodes.len() - 1]);
    }
}

proof fn lemma_entry_nodes_are_files(
    nodes: Seq<TreeNode>,
    paths: Seq<Seq<char>>,
    entries: Seq<EntryInfo>,
    show_external_refs: bool,
)
    requires
        entry_nodes_ok(nodes, paths, entries, show_external_refs),
    ensures
        entry_count(nodes) == paths.len(),
{
    assert forall|i: int| 0 <= i < nodes.len() implies (#[trigger] nodes[i]).kind == NodeKind::File by {
        assert(is_entry_node(nodes[i], paths[i], entries, show_external_refs));
        if !plain_file_path(base_name(paths[i])) {
            let ext = choose|ext: Option<Seq<char>>|
                extension_in(ext, base_name(paths[i])) && #[trigger] is_file_node(
                    nodes[i],
                    paths[i],
                    extension_text(ext),
                    entries,
                    show_external_refs,
                );
        }
    }
    lemma_entry_count_files(nodes);
}

proof fn lemma_groups_count(
    children: Seq<TreeNode>,
    keys: Seq<Seq<char>>,
    names: Seq<Seq<char>>,
    entries: Seq<EntryInfo>,
    show_external_refs: bool,
)
    requires
        groups_ok(children, keys, names, entries, show_external_refs),
    ensures
        entry_count(children) == grouped_count(keys, names),
    decreases keys.len(),
{
    if keys.len() > 0 {
        let key = keys.last();
        let group = names.filter(in_dir(key));
        if key == "/"@ {
            let cut = children.len() - group.len();
            let head = children.take(cut);
            let tail = children.skip(cut);
            lemma_groups_count(head, keys.drop_last(), names, entries, show_external_refs);
            lemma_entry_nodes_are_files(tail, group, entries, show_external_refs);
            lemma_entry_count_append(head, tail);
            assert(head + tail =~= children);
        } else {
            lemma_groups_count(
                children.drop_last(),
                keys.drop_last(),
                names,
                entries,
                show_external_refs,
            );
            let d = children.last();
            assert(entry_nodes_ok(d.children@, group, entries, show_external_refs));
        }
    }
}

/// The number of keys equal to `k`.
spec fn occurrences(keys: Seq<Seq<char>>, k: Seq<char>) -> nat
    decreases keys.len(),
{
    if keys.len() == 0 {
        0
    } else {
        occurrences(keys.drop_last(), k) + if keys.last() == k {
            1nat
        } else {
            0nat
        }
    }
}

proof fn lemma_grouped_count_push(keys: Seq<Seq<char>>, names: Seq<Seq<char>>, x: Seq<char>)
    ensures
        grouped_count(keys, names.push(x)) == grouped_count(keys, names) + occurrences(
            keys,
            dir_key(x),
        ),
    decreases keys.len(),
{
    if keys.len() > 0 {
        lemma_grouped_count_push(keys.drop_last(), names, x);
        names.lemma_filter_push(x, in_dir(keys.last()));
    }
}

proof fn lemma_occurrences_once(keys: Seq<Seq<char>>, k: Seq<char>)
    requires
        strictly_sorted(keys),
        keys.contains(k),
    ensures
        occurrences(keys, k) == 1,
    decreases keys.len(),
{
    let init = keys.drop_last();
    assert(strictly_sorted(init)) by {
        assert forall|i: int, j: int| 0 <= i < j < init.len() implies crate::order::lex_le(
            init[i],
            init[j],
        ) && init[i] != init[j] by {
            assert(init[i] == keys[i] && init[j] == keys[j]);
            let p = keys[i];
            let q = keys[j];
            assert(crate::order::lex_le(p, q));
            assert(p != q);
        }
    }
    if keys.last() == k {
        if init.contains(k) {
            let i = choose|i: int| 0 <= i < init.len() && init[i] == k;
            assert(keys[i] == k && keys[keys.len() - 1] == k);
            let j = keys.len() - 1;
            assert(0 <= i < j < keys.len());
            assert(strictly_sorted(keys));
            let p = keys[i];
            let q = keys[j];
            assert(crate::order::lex_le(p, q));
            assert(p != q);
        }
        lemma_occurrences_none(init, k);
    } else {
        let i = choose|i: int| 0 <= i < keys.len() && keys[i] == k;
        assert(i < init.len());
        assert(init[i] == k);
        lemma_occurrences_once(init, k);
    }
}

proof fn lemma_occurrences_none(keys: Seq<Seq<char>>, k: Seq<char>)
    requires
        !keys.contains(k),
    ensures
        occurrences(keys, k) == 0,
    decreases keys.len(),
{
    if keys.len() > 0 {
        let init = keys.drop_last();
        assert(!init.contains(k)) by {
            if init.contains(k) {
                let i = choose|i: int| 0 <= i < init.len() && init[i] == k;
                assert(keys[i] == k);
            }
        }
        assert(keys[keys.len() - 1] == keys.last());
        lemma_occurrences_none(init, k);
    }
}

proof fn lemma_partition(keys: Seq<Seq<char>>, names: Seq<Seq<char>>)
    requires
        strictly_sorted(keys),
        forall|i: int| 0 <= i < names.len() ==> keys.contains(dir_key(#[trigger] names[i])),
    ensures
        grouped_count(keys, names) == names.len(),
    decreases names.len(),
{
    if names.len() > 0 {
        let init = names.drop_last();
        let x = names.last();
        assert forall|i: int| 0 <= i < init.len() implies keys.contains(dir_key(#[trigger] init[i])) by {
            assert(init[i] == names[i]);
        }
        lemma_partition(keys, init);
        assert(keys.contains(dir_key(names[names.len() - 1])));
        lemma_occurrences_once(keys, dir_key(x));
        lemma_grouped_count_push(keys, init, x);
        assert(init.push(x) =~= names);
    } else {
        lemma_grouped_count_empty(keys, names);
    }
}

proof fn lemma_grouped_count_empty(keys: Seq<Seq<char>>, names: Seq<Seq<char>>)
    requires
        names.len() == 0,
    ensures
        grouped_count(keys, names) == 0,
    decreases keys.len(),
{
    if keys.len() > 0 {
        lemma_grouped_count_empty(keys.drop_last(), names);
        assert(names.filter(in_dir(keys.last())) =~= Seq::<Seq<char>>::empty());
    }
}

/// Every chosen entry is shown exactly once under the `Files` node: the
/// entry nodes and the entries of the directory nodes are as many as the
/// chosen entries.
pub proof fn lemma_files_node_holds_each_entry_once(
    n: TreeNode,
    chosen: Seq<Seq<char>>,
    entries: Seq<EntryInfo>,
    show_external_refs: bool,
)
    requires
        is_files_node(n, chosen, entries, show_external_refs),
    ensures
        entry_count(n.children@) == chosen.len(),
{
    let keys = choose|keys: Seq<Seq<char>>|
        dir_keys_of(keys, chosen) && #[trigger] groups_ok(
            n.children@,
            keys,
            chosen,
            entries,
            show_external_refs,
        );
    lemma_groups_count(n.children@, keys, chosen, entries, show_external_refs);
    assert forall|i: int| 0 <= i < chosen.len() implies keys.contains(dir_key(#[trigger] chosen[i])) by {
        let f = |m: Seq<char>| dir_key(m);
        assert(chosen.map_values(f)[i] == dir_key(chosen[i]));
        assert(chosen.map_values(f).contains(dir_key(chosen[i])));
        assert(chosen.map_values(f).to_set().contains(dir_key(chosen[i])));
        assert(keys.to_set().contains(dir_key(chosen[i])));
    }
    lemma_partition(keys, chosen);
}

/// What `tree` knows of an archive besides its entries.
pub struct ArchiveOverview {
    pub file_size: u64,
    pub format_version: VersionArg,
    pub file_count: usize,
    pub sector_size: usize,
    /// The number of hash-table entries, when the archive has a hash table.
    pub hash_table_entries: Option<usize>,
    /// The number of block-table entries, when the archive has a block table.
    pub block_table_entries: Option<usize>,
    pub has_het_table: bool,
    pub has_bet_table: bool,
}

/// Which special files the archive holds readable copies of.
#[derive(Clone, Copy, Debug, PartialEq, Eq, Structural)]
pub struct SpecialFiles {
    pub listfile: bool,
    pub attributes: bool,
    pub signature: bool,
}

/// The description of a node without children or references: its name,
/// kind, size and metadata.
pub type LeafSpec = (Seq<char>, NodeKind, Option<u64>, Seq<(MetaKey, MetaValue)>);

/// `n` is a node without children or references, as `leaf` describes it.
pub open spec fn is_leaf(n: TreeNode, leaf: LeafSpec) -> bool {
    &&& n.name@ == leaf.0
    &&& n.kind == leaf.1
    &&& n.size == leaf.2
    &&& n.metadata@ == leaf.3
    &&& n.external_refs@.len() == 0
    &&& n.children@.len() == 0
}

/// `nodes` are, in order, the nodes that `leaves` describe.
pub open spec fn leaves_ok(nodes: Seq<TreeNode>, leaves: Seq<LeafSpec>) -> bool {
    &&& nodes.len() == leaves.len()
    &&& forall|i: int| 0 <= i < nodes.len() ==> #[trigger] is_leaf(nodes[i], leaves[i])
}

/// The node of a classic table with `entries` entries of 16 bytes each.
pub open spec fn table_leaf(name: Seq<char>, entries: Option<usize>) -> Seq<LeafSpec> {
    match entries {
        Some(e) => seq![
            (
                name,
                NodeKind::Table,
                Some((e * 16) as u64),
                seq![
                    (MetaKey::Entries, MetaValue::Count(e)),
                    (MetaKey::Encrypted, MetaValue::Label(Label::Yes)),
                ],
            ),
        ],
        None => Seq::empty(),
    }
}

/// The node of an extended (v4) table.
pub open spec fn extended_leaf(name: Seq<char>, kind_label: Label) -> LeafSpec {
    (
        name,
        NodeKind::Table,
        None,
        seq![
            (MetaKey::Type, MetaValue::Label(kind_label)),
            (MetaKey::Version, MetaValue::Label(Label::FormatV4)),
        ],
    )
}

/// The nodes before the entries: the header (32 bytes), then the hash,
/// block, HET and BET tables that the archive has.
pub open spec fn structure_leaves(o: ArchiveOverview) -> Seq<LeafSpec> {
    seq![
        (
            "Header"@,
            NodeKind::Header,
            Some(32u64),
            seq![
                (MetaKey::Version, MetaValue::Version(o.format_version)),
                (MetaKey::SectorSize, MetaValue::Count(o.sector_size)),
            ],
        ),
    ] + table_leaf("Hash Table"@, o.hash_table_entries) + table_leaf(
        "Block Table"@,
        o.block_table_entries,
    ) + optional(o.has_het_table, extended_leaf("HET Table"@, Label::ExtendedHashTable))
        + optional(o.has_bet_table, extended_leaf("BET Table"@, Label::ExtendedBlockTable))
}

/// The node of a special file.
pub open spec fn special_leaf(name: Seq<char>, kind_label: Label, purpose: Label) -> LeafSpec {
    (
        name,
        NodeKind::File,
        None,
        seq![
            (MetaKey::Type, MetaValue::Label(kind_label)),
            (MetaKey::Purpose, MetaValue::Label(purpose)),
        ],
    )
}

/// The nodes after the entries: the special files present, in the order
/// listfile, attributes, signature.
pub open spec fn special_leaves(sp: SpecialFiles) -> Seq<LeafSpec> {
    optional(
        sp.listfile,
        special_leaf("(listfile)"@, Label::AutoGeneratedFileList, Label::FileEnumeration),
    ) + optional(
        sp.attributes,
        special_leaf("(attributes)"@, Label::FileAttributes, Label::CrcChecksumsAndTimestamps),
    ) + optional(
        sp.signature,
        special_leaf("(signature)"@, Label::DigitalSignature, Label::ArchiveIntegrityVerification),
    )
}

/// `root` is the tree of an archive named `root_name`: its size and
/// metadata, then the structure nodes, the `Files` node of the entries
/// among `names` that match `pattern` (when there is one), and the special
/// files.
pub open spec fn is_archive_tree(
    root: TreeNode,
    root_name: Seq<char>,
    o: ArchiveOverview,
    names: Seq<Seq<char>>,
    pattern: Seq<char>,
    entries: Seq<EntryInfo>,
    specials: SpecialFiles,
    show_external_refs: bool,
) -> bool {
    let chosen = selected(names, pattern);
    let pre = structure_leaves(o);
    let post = special_leaves(specials);
    let files = if chosen.len() > 0 {
        1int
    } else {
        0int
    };
    let cs = root.children@;
    &&& root.name@ == root_name
    &&& root.kind == NodeKind::Root
    &&& root.size == Some(o.file_size)
    &&& root.metadata@ == seq![
        (MetaKey::Format, MetaValue::Version(o.format_version)),
        (MetaKey::Files, MetaValue::Count(o.file_count)),
    ]
    &&& root.external_refs@.len() == 0
    &&& cs.len() == pre.len() + files + post.len()
    &&& leaves_ok(cs.take(pre.len() as int), pre)
    &&& chosen.len() > 0 ==> is_files_node(cs[pre.len() as int], chosen, entries, show_external_refs)
    &&& leaves_ok(cs.skip(pre.len() + files), post)
}

/// The name of the tree's root: the final component of the archive's path,
/// `None` when the path has none.
pub fn archive_root_name(path: &str) -> (r: Option<String>)
    ensures
        r matches Some(n) ==> n@.len() > 0 && occurs_in(n@, path@),
        plain_file_path(path@) ==> opt_view(r) == Some(after_last(path@, '/')),
        single_component(path@) ==> (r is Some && r.unwrap()@ == path@),
{
    proof {
        if single_component(path@) {
            lemma_single_component_is_plain(path@);
        }
    }
    path_file_name(path)
}

/// A node without children or references.
fn leaf_node(
    name: &str,
    kind: NodeKind,
    size: Option<u64>,
    metadata: Vec<(MetaKey, MetaValue)>,
) -> (n: TreeNode)
    ensures
        is_leaf(n, (name@, kind, size, metadata@)),
{
    TreeNode {
        name: name.to_owned(),
        kind,
        size,
        metadata,
        external_refs: Vec::new(),
        children: Vec::new(),
    }
}

fn table_node(name: &str, entries: Option<usize>) -> (r: Vec<TreeNode>)
    requires
        entries matches Some(e) ==> e * 16 <= usize::MAX,
    ensures
        leaves_ok(r@, table_leaf(name@, entries)),
{
    let mut r: Vec<TreeNode> = Vec::new();
    match entries {
        Some(e) => {
            let mut metadata: Vec<(MetaKey, MetaValue)> = Vec::new();
            metadata.push((MetaKey::Entries, MetaValue::Count(e)));
            metadata.push((MetaKey::Encrypted, MetaValue::Label(Label::Yes)));
            let size = (e * 16) as u64;
            assert(metadata@ =~= table_leaf(name@, entries)[0].3);
            let n = leaf_node(name, NodeKind::Table, Some(size), metadata);
            r.push(n);
            proof {
                assert(is_leaf(r@[0], table_leaf(name@, entries)[0]));
            }
        },
        None => {},
    }
    r
}

fn extended_node(name: &str, kind_label: Label) -> (n: TreeNode)
    ensures
        is_leaf(n, extended_leaf(name@, kind_label)),
{
    let mut metadata: Vec<(MetaKey, MetaValue)> = Vec::new();
    metadata.push((MetaKey::Type, MetaValue::Label(kind_label)));
    metadata.push((MetaKey::Version, MetaValue::Label(Label::FormatV4)));
    assert(metadata@ =~= extended_leaf(name@, kind_label).3);
    leaf_node(name, NodeKind::Table, None, metadata)
}

fn special_node(name: &str, kind_label: Label, purpose: Label) -> (n: TreeNode)
    ensures
        is_leaf(n, special_leaf(name@, kind_label, purpose)),
{
    let mut metadata: Vec<(MetaKey, MetaValue)> = Vec::new();
    metadata.push((MetaKey::Type, MetaValue::Label(kind_label)));
    metadata.push((MetaKey::Purpose, MetaValue::Label(purpose)));
    assert(metadata@ =~= special_leaf(name@, kind_label, purpose).3);
    leaf_node(name, NodeKind::File, None, metadata)
}

proof fn lemma_leaves_append(a: Seq<TreeNode>, la: Seq<LeafSpec>, b: Seq<TreeNode>, lb: Seq<LeafSpec>)
    requires
        leaves_ok(a, la),
        leaves_ok(b, lb),
    ensures
        leaves_ok(a + b, la + lb),
{
    assert forall|i: int| 0 <= i < (a + b).len() implies #[trigger] is_leaf((a + b)[i], (la + lb)[i]) by {
        if i < a.len() {
            assert(is_leaf(a[i], la[i]));
        } else {
            assert(is_leaf(b[i - a.len()], lb[i - a.len()]));
        }
    }
}

proof fn lemma_leaves_optional(cond: bool, n: TreeNode, leaf: LeafSpec)
    requires
        cond ==> is_leaf(n, leaf),
    ensures
        leaves_ok(optional(cond, n), optional(cond, leaf)),
{
    if cond {
        assert(is_leaf(optional(cond, n)[0], optional(cond, leaf)[0]));
    }
}

/// The structure nodes of an archive.
fn structure_nodes(o: &ArchiveOverview) -> (r: Vec<TreeNode>)
    requires
        o.hash_table_entries matches Some(e) ==> e * 16 <= usize::MAX,
        o.block_table_entries matches Some(e) ==> e * 16 <= usize::MAX,
    ensures
        leaves_ok(r@, structure_leaves(*o)),
{
    let mut header_meta: Vec<(MetaKey, MetaValue)> = Vec::new();
    header_meta.push((MetaKey::Version, MetaValue::Version(o.format_version)));
    header_meta.push((MetaKey::SectorSize, MetaValue::Count(o.sector_size)));
    assert(header_meta@ =~= structure_leaves(*o)[0].3);
    let header = leaf_node("Header", NodeKind::Header, Some(32), header_meta);
    let mut r: Vec<TreeNode> = Vec::new();
    r.push(header);
    let ghost l0 = structure_leaves(*o).take(1);
    proof {
        assert(is_leaf(r@[0], l0[0]));
    }
    let mut hash = table_node("Hash Table", o.hash_table_entries);
    let mut block = table_node("Block Table", o.block_table_entries);
    let ghost (r0, h0, b0) = (r@, hash@, block@);
    r.append(&mut hash);
    r.append(&mut block);
    proof {
        lemma_leaves_append(r0, l0, h0, table_leaf("Hash Table"@, o.hash_table_entries));
        lemma_leaves_append(
            r0 + h0,
            l0 + table_leaf("Hash Table"@, o.hash_table_entries),
            b0,
            table_leaf("Block Table"@, o.block_table_entries),
        );
    }
    let ghost r1 = r@;
    let het = extended_node("HET Table", Label::ExtendedHashTable);
    let bet = extended_node("BET Table", Label::ExtendedBlockTable);
    let ghost (hv, bv) = (het, bet);
    if o.has_het_table {
        r.push(het);
    }
    let ghost r2 = r@;
    if o.has_bet_table {
        r.push(bet);
    }
    proof {
        let het_leaf = extended_leaf("HET Table"@, Label::ExtendedHashTable);
        let bet_leaf = extended_leaf("BET Table"@, Label::ExtendedBlockTable);
        lemma_leaves_optional(o.has_het_table, hv, het_leaf);
        lemma_leaves_optional(o.has_bet_table, bv, bet_leaf);
        assert(r2 =~= r1 + optional(o.has_het_table, hv));
        assert(r@ =~= r2 + optional(o.has_bet_table, bv));
        let lh = l0 + table_leaf("Hash Table"@, o.hash_table_entries) + table_leaf(
            "Block Table"@,
            o.block_table_entries,
        );
        lemma_leaves_append(r1, lh, optional(o.has_het_table, hv), optional(o.has_het_table, het_leaf));
        lemma_leaves_append(
            r2,
            lh + optional(o.has_het_table, het_leaf),
            optional(o.has_bet_table, bv),
            optional(o.has_bet_table, bet_leaf),
        );
        assert(structure_leaves(*o) =~= lh + optional(o.has_het_table, het_leaf) + optional(
            o.has_bet_table,
            bet_leaf,
        ));
    }
    r
}

/// The nodes of the special files present.
fn special_nodes(sp: SpecialFiles) -> (r: Vec<TreeNode>)
    ensures
        leaves_ok(r@, special_leaves(sp)),
{
    let lf = special_node("(listfile)", Label::AutoGeneratedFileList, Label::FileEnumeration);
    let at = special_node("(attributes)", Label::FileAttributes, Label::CrcChecksumsAndTimestamps);
    let sg = special_node(
        "(signature)",
        Label::DigitalSignature,
        Label::ArchiveIntegrityVerification,
    );
    let ghost (a, b, c) = (lf, at, sg);
    let mut r: Vec<TreeNode> = Vec::new();
    if sp.listfile {
        r.push(lf);
    }
    if sp.attributes {
        r.push(at);
    }
    if sp.signature {
        r.push(sg);
    }
    proof {
        let la = special_leaf("(listfile)"@, Label::AutoGeneratedFileList, Label::FileEnumeration);
        let lb = special_leaf(
            "(attributes)"@,
            Label::FileAttributes,
            Label::CrcChecksumsAndTimestamps,
        );
        let lc = special_leaf(
            "(signature)"@,
            Label::DigitalSignature,
            Label::ArchiveIntegrityVerification,
        );
        lemma_leaves_optional(sp.listfile, a, la);
        lemma_leaves_optional(sp.attributes, b, lb);
        lemma_leaves_optional(sp.signature, c, lc);
        assert(r@ =~= optional(sp.listfile, a) + optional(sp.attributes, b) + optional(
            sp.signature,
            c,
        ));
        lemma_leaves_append(
            optional(sp.listfile, a),
            optional(sp.listfile, la),
            optional(sp.attributes, b),
            optional(sp.attributes, lb),
        );
        lemma_leaves_append(
            optional(sp.listfile, a) + optional(sp.attributes, b),
            optional(sp.listfile, la) + optional(sp.attributes, lb),
            optional(sp.signature, c),
            optional(sp.signature, lc),
        );
    }
    r
}

/// The tree of an archive: its structure, the entries among `files` that
/// match the optional filter, grouped by directory, and its special files.
pub fn archive_tree(
    root_name: String,
    overview: &ArchiveOverview,
    files: &Vec<String>,
    filter: &Option<String>,
    entries: &Vec<EntryInfo>,
    specials: SpecialFiles,
    show_external_refs: bool,
) -> (root: TreeNode)
    requires
        overview.hash_table_entries matches Some(e) ==> e * 16 <= usize::MAX,
        overview.block_table_entries matches Some(e) ==> e * 16 <= usize::MAX,
    ensures
        is_archive_tree(
            root,
            root_name@,
            *overview,
            string_views(files@),
            pattern_of(*filter),
            entries@,
            specials,
            show_external_refs,
        ),
{
    let mut children = structure_nodes(overview);
    let ghost pre = children@;
    let chosen = filter_names(files, filter);
    let has_files = chosen.len() > 0;
    if has_files {
        let f = files_node(&chosen, entries, show_external_refs);
        children.push(f);
    }
    let ghost mid = children@;
    let mut special = special_nodes(specials);
    let ghost sp = special@;
    children.append(&mut special);
    let mut metadata: Vec<(MetaKey, MetaValue)> = Vec::new();
    metadata.push((MetaKey::Format, MetaValue::Version(overview.format_version)));
    metadata.push((MetaKey::Files, MetaValue::Count(overview.file_count)));
    let root = TreeNode {
        name: root_name,
        kind: NodeKind::Root,
        size: Some(overview.file_size),
        metadata,
        external_refs: Vec::new(),
        children,
    };
    proof {
        let cs = root.children@;
        let n = structure_leaves(*overview).len();
        assert(cs.take(n as int) =~= pre);
        let files_count = if has_files {
            1int
        } else {
            0int
        };
        assert(cs.skip(n + files_count) =~= sp);
        assert(root.metadata@ =~= seq![
            (MetaKey::Format, MetaValue::Version(overview.format_version)),
            (MetaKey::Files, MetaValue::Count(overview.file_count)),
        ]);
        if has_files {
            assert(cs[n as int] == mid[n as int]);
        }
    }
    root
}

} // verus!

verus! {

/// Each extension of the original table names its content kind, and every
/// other extension is plain data: the kind is `Texture` exactly for `blp`,
/// `Model` for `m2` and `mdx`, `WorldMapDefinition` for `wdt`,
/// `TerrainData` for `adt`, `LowResTerrain` for `wdl`, `Database` for
/// `dbc`, `Script` for `lua`, `InterfaceDefinition` for `xml`,
/// `AddOnManifest` for `toc`, `Audio` for `wav` and `mp3`.
pub proof fn lemma_file_type_table(ext: Seq<char>)
    ensures
        (file_type_of(ext) == FileType::Texture) <==> ext == seq!['b', 'l', 'p'],
        (file_type_of(ext) == FileType::Model) <==> (ext == seq!['m', '2'] || ext == seq![
            'm',
            'd',
            'x',
        ]),
        (file_type_of(ext) == FileType::WorldMapDefinition) <==> ext == seq!['w', 'd', 't'],
        (file_type_of(ext) == FileType::TerrainData) <==> ext == seq!['a', 'd', 't'],
        (file_type_of(ext) == FileType::LowResTerrain) <==> ext == seq!['w', 'd', 'l'],
        (file_type_of(ext) == FileType::Database) <==> ext == seq!['d', 'b', 'c'],
        (file_type_of(ext) == FileType::Script) <==> ext == seq!['l', 'u', 'a'],
        (file_type_of(ext) == FileType::InterfaceDefinition) <==> ext == seq!['x', 'm', 'l'],
        (file_type_of(ext) == FileType::AddOnManifest) <==> ext == seq!['t', 'o', 'c'],
        (file_type_of(ext) == FileType::Audio) <==> (ext == seq!['w', 'a', 'v'] || ext == seq![
            'm',
            'p',
            '3',
        ]),
{
    reveal_strlit("blp");
    reveal_strlit("m2");
    reveal_strlit("mdx");
    reveal_strlit("wdt");
    reveal_strlit("adt");
    reveal_strlit("wdl");
    reveal_strlit("dbc");
    reveal_strlit("lua");
    reveal_strlit("xml");
    reveal_strlit("toc");
    reveal_strlit("wav");
    reveal_strlit("mp3");
    assert("blp"@ =~= seq!['b', 'l', 'p']);
    assert("m2"@ =~= seq!['m', '2']);
    assert("mdx"@ =~= seq!['m', 'd', 'x']);
    assert("wdt"@ =~= seq!['w', 'd', 't']);
    assert("adt"@ =~= seq!['a', 'd', 't']);
    assert("wdl"@ =~= seq!['w', 'd', 'l']);
    assert("dbc"@ =~= seq!['d', 'b', 'c']);
    assert("lua"@ =~= seq!['l', 'u', 'a']);
    assert("xml"@ =~= seq!['x', 'm', 'l']);
    assert("toc"@ =~= seq!['t', 'o', 'c']);
    assert("wav"@ =~= seq!['w', 'a', 'v']);
    assert("mp3"@ =~= seq!['m', 'p', '3']);
}

} // verus!

verus! {

/// Which entries point outside the archive: exactly world maps (`wdt`),
/// terrain (`adt`), models (`m2`) and databases whose lowercased name
/// mentions `item`. A world map points to terrain tiles, terrain to
/// textures and then models, a model to its skin and then textures, an item
/// database to textures.
pub proof fn lemma_external_refs_kinds(name: Seq<char>, ext: Seq<char>, lower_name: Seq<char>)
    ensures
        ({
            let r = spec_external_refs_given(name, ext, lower_name);
            &&& r.len() > 0 <==> (ext == seq!['w', 'd', 't'] || ext == seq!['a', 'd', 't'] || ext
                == seq!['m', '2'] || (ext == seq!['d', 'b', 'c'] && occurs_in(
                seq!['i', 't', 'e', 'm'],
                lower_name,
            )))
            &&& ext == seq!['w', 'd', 't'] ==> r.len() == 1 && r[0].1 == RefTarget::Adt
            &&& ext == seq!['a', 'd', 't'] ==> r.len() == 2 && r[0] == (seq!['*', '.', 'b', 'l', 'p'],
                RefTarget::Blp) && r[1] == (seq!['*', '.', 'm', '2'], RefTarget::M2)
            &&& ext == seq!['m', '2'] ==> r.len() == 2 && r[0].1 == RefTarget::Skin && r[1] == (
                seq!['*', '.', 'b', 'l', 'p'],
                RefTarget::Blp,
            )
            &&& ext == seq!['d', 'b', 'c'] && occurs_in(seq!['i', 't', 'e', 'm'], lower_name) ==> r
                == seq![(seq!['I', 'n', 't', 'e', 'r', 'f', 'a', 'c', 'e', '/', 'I', 'c', 'o', 'n', 's', '/', '*', '.', 'b', 'l', 'p'], RefTarget::Blp)]
        }),
{
    reveal_strlit("wdt");
    reveal_strlit("adt");
    reveal_strlit("m2");
    reveal_strlit("dbc");
    reveal_strlit("item");
    reveal_strlit("*.blp");
    reveal_strlit("*.m2");
    reveal_strlit("Interface/Icons/*.blp");
    assert("wdt"@ =~= seq!['w', 'd', 't']);
    assert("adt"@ =~= seq!['a', 'd', 't']);
    assert("m2"@ =~= seq!['m', '2']);
    assert("dbc"@ =~= seq!['d', 'b', 'c']);
    assert("item"@ =~= seq!['i', 't', 'e', 'm']);
    assert("*.blp"@ =~= seq!['*', '.', 'b', 'l', 'p']);
    assert("*.m2"@ =~= seq!['*', '.', 'm', '2']);
    assert("Interface/Icons/*.blp"@ =~= seq!['I', 'n', 't', 'e', 'r', 'f', 'a', 'c', 'e', '/', 'I', 'c', 'o', 'n', 's', '/', '*', '.', 'b', 'l', 'p']);
}

/// A world map's tiles and a model's skin are named after the entry with
/// every trailing copy of its extension (as written in lowercase) removed:
/// what is left is a prefix of the name that no longer ends with it.
pub proof fn lemma_trim_suffixes(s: Seq<char>, suffix: Seq<char>)
    requires
        suffix.len() > 0,
    ensures
        trim_suffixes(s, suffix).len() <= s.len(),
        trim_suffixes(s, suffix) == s.take(trim_suffixes(s, suffix).len() as int),
        !(trim_suffixes(s, suffix).len() >= suffix.len() && trim_suffixes(s, suffix).skip(
            trim_suffixes(s, suffix).len() - suffix.len(),
        ) == suffix),
    decreases s.len(),
{
    if suffix.len() <= s.len() && s.skip(s.len() - suffix.len()) == suffix {
        let t = s.take(s.len() - suffix.len());
        lemma_trim_suffixes(t, suffix);
        let r = trim_suffixes(t, suffix);
        assert(r == t.take(r.len() as int));
        assert(t.take(r.len() as int) =~= s.take(r.len() as int));
    } else {
        assert(s.take(s.len() as int) =~= s);
    }
}

} // verus!
