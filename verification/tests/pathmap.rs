use mega_downloader::pathmap::normalize;
use mega_downloader::{resolve_mapping, PathMapping};
use std::path::PathBuf;

fn map(remote: &str, local: &str) -> PathMapping {
    PathMapping::new(remote, local)
}

#[test]
fn matches_exact_prefix() {
    let mappings = vec![map("/rdtdownloads", "/mnt/media/media/rdtdownloads")];
    let out = resolve_mapping(&mappings, "/rdtdownloads/job1/video.mkv").unwrap();
    assert_eq!(
        PathBuf::from(out),
        PathBuf::from("/mnt/media/media/rdtdownloads/job1/video.mkv")
    );
}

#[test]
fn longest_prefix_wins() {
    let mappings = vec![
        map("/rdtdownloads", "/mnt/media/media/rdtdownloads"),
        map("/rdtdownloads/job1", "/mnt/media/mega-downloader/job1"),
    ];
    let out = resolve_mapping(&mappings, "/rdtdownloads/job1/video.mkv").unwrap();
    assert_eq!(
        PathBuf::from(out),
        PathBuf::from("/mnt/media/mega-downloader/job1/video.mkv")
    );
}

#[test]
fn no_match_returns_none() {
    let mappings = vec![map("/rdtdownloads", "/mnt/media/media/rdtdownloads")];
    assert!(resolve_mapping(&mappings, "/elsewhere/file.mkv").is_none());
}

#[test]
fn direct_local_path_returns_none() {
    // If Aria2 already reports a local path we won't map it again.
    let mappings = vec![map("/rdtdownloads", "/mnt/media/media/rdtdownloads")];
    assert!(resolve_mapping(&mappings, "/mnt/media/somewhere/file.mkv").is_none());
}

#[test]
fn prefixes_match_whole_components() {
    let mappings = vec![map("/rd", "/mnt")];
    assert!(resolve_mapping(&mappings, "/rdt/file").is_none());
    assert_eq!(resolve_mapping(&mappings, "/rd/file"), Some("/mnt/file".to_string()));
    assert_eq!(resolve_mapping(&mappings, "/rd//x/./y"), Some("/mnt/x/./y".to_string()));
}

#[test]
fn the_prefix_itself_is_mapped() {
    let mappings = vec![map("/rd", "/mnt")];
    assert_eq!(resolve_mapping(&mappings, "/rd"), Some("/mnt/".to_string()));
}

#[test]
fn the_order_of_rules_does_not_beat_their_length() {
    let broad = map("/rd", "/mnt/a");
    let narrow = map("/rd/job1", "/mnt/b");
    for mappings in [vec![broad.clone(), narrow.clone()], vec![narrow, broad]] {
        assert_eq!(
            resolve_mapping(&mappings, "/rd/job1/v.mkv"),
            Some("/mnt/b/v.mkv".to_string())
        );
    }
}

#[test]
fn of_equal_prefixes_the_first_wins() {
    let mappings = vec![map("/rd", "/mnt/a"), map("/rd", "/mnt/b")];
    assert_eq!(resolve_mapping(&mappings, "/rd/v"), Some("/mnt/a/v".to_string()));
}

#[test]
fn a_specific_rule_beats_a_broad_one_however_it_is_written() {
    let broad = map("/a///", "/x");
    let specific = map("/a/b", "/y");
    for mappings in [vec![broad.clone(), specific.clone()], vec![specific, broad]] {
        assert_eq!(resolve_mapping(&mappings, "/a/b/c"), Some("/y/c".to_string()));
        assert_eq!(resolve_mapping(&mappings, "/a/z"), Some("/x/z".to_string()));
    }
    let dotted = vec![map("/rd/./././././", "/mnt/a"), map("/rd/job1", "/mnt/b")];
    assert_eq!(resolve_mapping(&dotted, "/rd/job1/v"), Some("/mnt/b/v".to_string()));
    let inner = vec![map("/x////y", "/p"), map("/x/y/z", "/q")];
    assert_eq!(resolve_mapping(&inner, "/x/y/z/f"), Some("/q/f".to_string()));
}

#[test]
fn of_two_spellings_of_a_directory_the_longer_wins() {
    let short = map("/rd", "/mnt/a");
    let long = map("/rd//", "/mnt/b");
    for mappings in [vec![short.clone(), long.clone()], vec![long, short]] {
        assert_eq!(resolve_mapping(&mappings, "/rd/v"), Some("/mnt/b/v".to_string()));
    }
}

#[test]
fn order_and_rules_that_do_not_apply_play_no_part() {
    let rules = [
        map("/rd", "/a"),
        map("/rd/x", "/b"),
        map("/rd/x/y", "/c"),
        map("/else/where", "/d"),
    ];
    for order in [[0, 1, 2, 3], [3, 2, 1, 0], [1, 3, 0, 2], [2, 0, 3, 1]] {
        let mut mappings: Vec<PathMapping> = order.iter().map(|k| rules[*k].clone()).collect();
        for (i, m) in mappings.iter_mut().enumerate() {
            m.id = Some(i as i64);
            m.position = 9 - i as i64;
        }
        assert_eq!(resolve_mapping(&mappings, "/rd/x/f"), Some("/b/f".to_string()));
        mappings.retain(|m| m.local_path != "/d" && m.local_path != "/c");
        assert_eq!(resolve_mapping(&mappings, "/rd/x/f"), Some("/b/f".to_string()));
    }
}

#[test]
fn normalizing_gives_forward_slash_style() {
    assert_eq!(normalize("C:\\media\\tv"), "C:/media/tv");
    assert_eq!(normalize(" D:\\aria2\\ "), "D:/aria2");
    assert_eq!(normalize("\\\\server\\share"), "/server/share");
    assert_eq!(normalize("\\"), "");
    let mappings = vec![map(&normalize("D:\\aria2"), &normalize("E:\\tv"))];
    assert_eq!(resolve_mapping(&mappings, "D:/aria2/x"), Some("E:/tv/x".to_string()));
}

#[test]
fn new_mappings_have_no_row() {
    let m = map("/a", "/b");
    assert_eq!(m.id, None);
    assert_eq!(m.remote_path, "/a");
    assert_eq!(m.local_path, "/b");
    assert_eq!(m.position, 0);
}

#[test]
fn normalizing_trims_and_collapses() {
    assert_eq!(normalize("  /mnt/media/  "), "/mnt/media");
    assert_eq!(normalize("//mnt//media///"), "/mnt//media");
    assert_eq!(normalize("mnt/"), "mnt");
    assert_eq!(normalize("/"), "");
    assert_eq!(normalize("   "), "");
    assert_eq!(normalize("\u{3000}/a\u{a0}"), "/a");
}

#[test]
fn normalizing_twice_changes_nothing() {
    for p in ["  /mnt/media/  ", "//a//b//", "x", "/", "///x"] {
        let once = normalize(p);
        assert_eq!(normalize(&once), once);
    }
    // White space before a trailing slash only shows once the slash is gone.
    assert_eq!(normalize("a /"), "a ");
    assert_eq!(normalize("a "), "a");
}
