use cbr_egui::library::scanner::{
    discovery_step, is_hidden_entry, walks_at_depth, DiscoveryStep, MAX_DISCOVERY_DEPTH,
};

#[test]
fn library_walk_skips_hidden_entries_and_links() {
    assert!(is_hidden_entry("/library/.cache"));
    assert!(is_hidden_entry("/library/__MACOSX"));
    assert!(!is_hidden_entry("/library/Saga.cbz"));

    assert_eq!(discovery_step("/library/.hidden.cbz", false, false), DiscoveryStep::Skip);
    assert_eq!(discovery_step("/library/__MACOSX", false, true), DiscoveryStep::Skip);
    assert_eq!(discovery_step("/library/loop", true, true), DiscoveryStep::Skip);
    assert_eq!(discovery_step("/library/Series", false, true), DiscoveryStep::Descend);
    assert_eq!(discovery_step("/library/Saga.CBZ", false, false), DiscoveryStep::Collect);
    assert_eq!(discovery_step("/library/book.djvu", false, false), DiscoveryStep::Collect);
    assert_eq!(discovery_step("/library/notes.txt", false, false), DiscoveryStep::Skip);
    assert_eq!(discovery_step("/library/old.zip", false, false), DiscoveryStep::Skip);
}

#[test]
fn library_walk_stops_at_the_depth_limit() {
    assert!(walks_at_depth(0));
    assert!(walks_at_depth(MAX_DISCOVERY_DEPTH - 1));
    assert!(!walks_at_depth(MAX_DISCOVERY_DEPTH));
}
