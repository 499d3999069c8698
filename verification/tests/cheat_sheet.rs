use daq_core::panels::cheat_sheet::{CheatSheetPanel, ShortcutContext};

#[test]
fn cheat_sheet_filters_contexts() {
    let mut p = CheatSheetPanel::new();
    assert_eq!(
        p.contexts_to_show(),
        vec![ShortcutContext::Global, ShortcutContext::ImageViewer, ShortcutContext::SignalPlotter]
    );
    p.select(Some(ShortcutContext::ImageViewer));
    assert_eq!(p.contexts_to_show(), vec![ShortcutContext::ImageViewer]);
    p.select(None);
    assert_eq!(p.contexts_to_show().len(), 3);
}
