use thunder_agent::tui::picker::{PickerItem, PickerKind, PickerState};
use thunder_agent::tui::ui::picker_modal::{modal_rect, modal_text};

#[test]
fn modal_is_centred_and_clamped() {
    // 100x40: width 75, height 28.
    assert_eq!(modal_rect(100, 40), (12, 6, 75, 28));
    // Narrow screens: at least 50 wide but never wider than the screen less 4.
    assert_eq!(modal_rect(60, 14), (5, 1, 50, 12));
    assert_eq!(modal_rect(40, 10), (2, 1, 36, 8));
    assert_eq!(modal_rect(0, 0), (0, 0, 0, 0));
}

fn items(n: usize) -> Vec<PickerItem> {
    (0..n)
        .map(|i| PickerItem::new(&format!("id{i}"), &format!("Item {i}"), &format!("Description {i}\nmore")))
        .collect()
}

#[test]
fn modal_text_marks_the_selection_and_counts_the_rest() {
    let mut p = PickerState::new();
    p.open(PickerKind::SelectModel, Some("Pick".to_string()), items(10));
    p.selected_index = 6;
    let m = modal_text(&p, 4);
    assert_eq!(m.title, " Pick [7/10] ");
    assert_eq!(m.search, " 🔍 Search:  (type to search...)  [10 result(s)]");
    assert_eq!(m.rows.len(), 4);
    assert_eq!(m.rows[0], format!("   {:<28} Description 3", "Item 3"));
    assert_eq!(m.rows[3], format!(" ▶ {:<28} Description 6", "Item 6"));
    assert_eq!(m.footer, " ↑3 more  ↑/↓ move  Enter attach  Esc close  ↓3 more ");
}

#[test]
fn modal_text_with_badges_filters_and_no_match() {
    let mut p = PickerState::new();
    let list = vec![
        PickerItem::new("gpt-4o", "GPT-4o", "OpenAI Flagship").with_badge("Recommended"),
        PickerItem::new("deepseek-chat", "DeepSeek V3", "DeepSeek Chat"),
    ];
    p.open(PickerKind::SelectModel, Some("Models".to_string()), list);
    let m = modal_text(&p, 0);
    assert_eq!(m.title, " Models [1/2] ");
    assert_eq!(m.rows, vec![format!(" ▶ {:<28} [Recommended] OpenAI Flagship", "GPT-4o")]);
    assert_eq!(m.footer, " ↑/↓ move  Enter attach  Esc close  ↓1 more ");

    p.filter_text = "zzz".to_string();
    let m = modal_text(&p, 5);
    assert_eq!(m.title, " Models [0/0] ");
    assert_eq!(m.search, " 🔍 Search:  \"zzz\"  [0 result(s)]");
    assert_eq!(m.rows, vec!["   No matching items found.".to_string()]);
    assert_eq!(m.footer, " ↑/↓ move  Enter attach  Esc close ");
}
