use mpq_cli::command::VersionArg;
use mpq_cli::listing::EntryInfo;
use mpq_cli::mpq_path::{base_name_of, dir_key_of};
use mpq_cli::tree::{
    archive_tree, external_refs_for, external_refs_given, file_node, file_node_with_extension, file_type_for,
    ArchiveOverview, FileType, Label, MetaKey, MetaValue, NodeKind, RefTarget, SpecialFiles,
    TreeNode,
};

fn entry(name: &str, size: u64, compressed: u64) -> EntryInfo {
    EntryInfo { name: name.to_string(), size, compressed_size: compressed }
}

fn refs(n: &TreeNode) -> Vec<(String, RefTarget)> {
    n.external_refs.iter().map(|r| (r.pattern.clone(), r.target)).collect()
}

#[test]
fn archive_path_components() {
    assert_eq!(base_name_of("World\\Maps\\Azeroth\\Azeroth.wdt"), "Azeroth.wdt");
    assert_eq!(base_name_of("plain.txt"), "plain.txt");
    assert_eq!(base_name_of("dir\\"), "");
    assert_eq!(dir_key_of("World\\Maps\\x.adt").iter().collect::<String>(), "World\\Maps");
    assert_eq!(dir_key_of("x.adt").iter().collect::<String>(), "/");
    assert_eq!(dir_key_of("\\x.adt").iter().collect::<String>(), "");
}

#[test]
fn file_types_by_lowercased_extension() {
    assert_eq!(file_type_for("blp"), FileType::Texture);
    assert_eq!(file_type_for("mdx"), FileType::Model);
    assert_eq!(file_type_for("mp3"), FileType::Audio);
    assert_eq!(file_type_for("BLP"), FileType::Data);
    assert_eq!(file_type_for(""), FileType::Data);
}

#[test]
fn file_node_reads_extension_case_insensitively() {
    let entries = vec![entry("Textures\\Stone.BLP", 4096, 1024)];
    let n = file_node("Textures\\Stone.BLP", &entries, true);
    assert_eq!(n.name, "Stone.BLP");
    assert_eq!(n.kind, NodeKind::File);
    assert_eq!(n.size, Some(4096));
    assert_eq!(
        n.metadata,
        vec![
            (MetaKey::CompressedSize, MetaValue::Bytes(1024)),
            (MetaKey::CompressionRatio, MetaValue::Ratio(4096, 1024)),
            (MetaKey::Type, MetaValue::FileType(FileType::Texture)),
        ]
    );
    assert!(n.external_refs.is_empty());
    assert!(n.children.is_empty());
}

#[test]
fn file_node_without_entry_or_extension() {
    let n = file_node("README", &vec![], true);
    assert_eq!(n.size, None);
    assert_eq!(n.metadata, vec![(MetaKey::Type, MetaValue::FileType(FileType::Data))]);
    let n = file_node(".hidden", &vec![], true);
    assert_eq!(n.metadata, vec![(MetaKey::Type, MetaValue::FileType(FileType::Data))]);
}

#[test]
fn external_references() {
    let n = file_node("World\\Maps\\Azeroth\\Azeroth.wdt", &vec![], true);
    assert_eq!(refs(&n), vec![("Azeroth/*.adt".to_string(), RefTarget::Adt)]);
    let n = file_node("World\\Maps\\Azeroth\\Azeroth.wdt", &vec![], false);
    assert!(refs(&n).is_empty());
    let n = file_node("Azeroth_32_48.adt", &vec![], true);
    assert_eq!(
        refs(&n),
        vec![("*.blp".to_string(), RefTarget::Blp), ("*.m2".to_string(), RefTarget::M2)]
    );
    let n = file_node("Creature\\Wolf\\Wolf.m2", &vec![], true);
    assert_eq!(
        refs(&n),
        vec![("Wolf.skin".to_string(), RefTarget::Skin), ("*.blp".to_string(), RefTarget::Blp)]
    );
    let n = file_node("DBFilesClient\\ItemDisplayInfo.dbc", &vec![], true);
    assert_eq!(refs(&n), vec![("Interface/Icons/*.blp".to_string(), RefTarget::Blp)]);
    let n = file_node("DBFilesClient\\Map.dbc", &vec![], true);
    assert!(refs(&n).is_empty());
    assert_eq!(
        external_refs_for("a.wdt.wdt", "wdt").iter().map(|r| r.pattern.clone()).collect::<Vec<_>>(),
        vec!["a/*.adt".to_string()]
    );
    assert_eq!(
        external_refs_for("A.WDT", "wdt").iter().map(|r| r.pattern.clone()).collect::<Vec<_>>(),
        vec!["A.WDT/*.adt".to_string()]
    );
    let n = file_node_with_extension("MODEL.M2", "M2", &vec![], true);
    assert_eq!(n.metadata, vec![(MetaKey::Type, MetaValue::FileType(FileType::Model))]);
    assert_eq!(refs(&n)[0].0, "MODEL.M2.skin");
}

#[test]
fn item_databases_are_found_by_their_lowercased_name() {
    let pat = |v: Vec<mpq_cli::tree::ExternalRef>| v.iter().map(|r| r.pattern.clone()).collect::<Vec<_>>();
    assert_eq!(
        pat(external_refs_given("ITEMSET.dbc", "dbc", "itemset.dbc")),
        vec!["Interface/Icons/*.blp".to_string()]
    );
    assert!(pat(external_refs_given("ITEMSET.dbc", "dbc", "ITEMSET.dbc")).is_empty());
    assert!(pat(external_refs_given("Spell.dbc", "dbc", "spell.dbc")).is_empty());
    assert_eq!(
        pat(external_refs_for("ITEMSET.dbc", "dbc")),
        vec!["Interface/Icons/*.blp".to_string()]
    );
}

#[test]
fn extensions_follow_the_documented_rule() {
    let ty = |p: &str| file_node(p, &vec![], false).metadata.last().cloned();
    assert_eq!(ty("Tex\\A.BLP"), Some((MetaKey::Type, MetaValue::FileType(FileType::Texture))));
    assert_eq!(ty("Tex\\.blp"), Some((MetaKey::Type, MetaValue::FileType(FileType::Data))));
    assert_eq!(ty("Tex\\a.x.blp"), Some((MetaKey::Type, MetaValue::FileType(FileType::Texture))));
    assert_eq!(ty("Tex\\a.blp.gz"), Some((MetaKey::Type, MetaValue::FileType(FileType::Data))));
    assert_eq!(ty("Tex\\.a.M2"), Some((MetaKey::Type, MetaValue::FileType(FileType::Model))));
    assert_eq!(ty("Interface\\Icons/a.BLP"), Some((MetaKey::Type, MetaValue::FileType(FileType::Texture))));
    assert_eq!(ty("Interface\\Icons/"), Some((MetaKey::Type, MetaValue::FileType(FileType::Data))));
}

fn overview() -> ArchiveOverview {
    ArchiveOverview {
        file_size: 5000,
        format_version: VersionArg::V2,
        file_count: 4,
        sector_size: 4096,
        hash_table_entries: Some(8),
        block_table_entries: None,
        has_het_table: false,
        has_bet_table: true,
    }
}

#[test]
fn tree_groups_entries_by_directory() {
    let files: Vec<String> = ["b\\x.txt", "top.lua", "a\\y.txt", "b\\z.txt", "(listfile)"]
        .iter()
        .map(|s| s.to_string())
        .collect();
    let specials = SpecialFiles { listfile: true, attributes: false, signature: true };
    let root = archive_tree("test.mpq".to_string(), &overview(), &files, &None, &vec![], specials, true);
    assert_eq!(root.name, "test.mpq");
    assert_eq!(root.kind, NodeKind::Root);
    assert_eq!(root.size, Some(5000));
    assert_eq!(
        root.metadata,
        vec![
            (MetaKey::Format, MetaValue::Version(VersionArg::V2)),
            (MetaKey::Files, MetaValue::Count(4)),
        ]
    );
    let names: Vec<&str> = root.children.iter().map(|c| c.name.as_str()).collect();
    assert_eq!(
        names,
        vec!["Header", "Hash Table", "BET Table", "Files", "(listfile)", "(signature)"]
    );
    assert_eq!(root.children[0].size, Some(32));
    assert_eq!(root.children[1].size, Some(128));
    assert_eq!(
        root.children[1].metadata,
        vec![
            (MetaKey::Entries, MetaValue::Count(8)),
            (MetaKey::Encrypted, MetaValue::Label(Label::Yes)),
        ]
    );
    let files_node = &root.children[3];
    assert_eq!(files_node.metadata, vec![(MetaKey::Count, MetaValue::Count(5))]);
    let groups: Vec<&str> = files_node.children.iter().map(|c| c.name.as_str()).collect();
    assert_eq!(groups, vec!["top.lua", "(listfile)", "a/", "b/"]);
    let b = &files_node.children[3];
    assert_eq!(b.metadata, vec![(MetaKey::Files, MetaValue::Count(2))]);
    let in_b: Vec<&str> = b.children.iter().map(|c| c.name.as_str()).collect();
    assert_eq!(in_b, vec!["x.txt", "z.txt"]);
}

#[test]
fn tree_without_matching_entries_has_no_files_node() {
    let files = vec!["a.txt".to_string()];
    let specials = SpecialFiles { listfile: false, attributes: true, signature: false };
    let root = archive_tree(
        "x".to_string(),
        &overview(),
        &files,
        &Some("*.blp".to_string()),
        &vec![],
        specials,
        false,
    );
    let names: Vec<&str> = root.children.iter().map(|c| c.name.as_str()).collect();
    assert_eq!(names, vec!["Header", "Hash Table", "BET Table", "(attributes)"]);
}
