use task_colors::color::TColor;
use task_colors::config::TColorConfig;
use tui::style::Color;

fn pair(fg: Color, bg: Color) -> TColor {
    TColor { fg, bg }
}

#[test]
fn test_colors() {
    let tc = TColorConfig::default("");
    println!("{:?}", tc.due_today);
}

#[test]
fn empty_text_gives_defaults() {
    let table = TColorConfig::default("");
    assert!(table.enabled);
    assert_eq!(table.active, TColor::default());
    assert_eq!(table.alternate, TColor::default());
    assert_eq!(table.calendar_due_today, TColor::default());
    assert_eq!(table.uda_priority_h, TColor::default());
    assert_eq!(table.warning, TColor::default());
}

#[test]
fn error_set_and_warning_absent() {
    let table = TColorConfig::default("color.error color1\ncolor.active rgb555 on rgb000\n");
    assert_eq!(table.error, pair(Color::Indexed(1), Color::Indexed(15)));
    assert_eq!(table.warning, pair(Color::Indexed(0), Color::Indexed(15)));
    assert_eq!(table.active, pair(Color::Indexed(231), Color::Indexed(16)));
    assert!(table.enabled);
}

#[test]
fn last_line_wins() {
    let table = TColorConfig::default("color.due color1\ncolor.due color2\ncolor.due.today color3");
    assert_eq!(table.due, pair(Color::Indexed(2), Color::Indexed(15)));
    assert_eq!(table.due_today, pair(Color::Indexed(3), Color::Indexed(15)));
}

#[test]
fn spaces_after_the_name_are_skipped() {
    let table = TColorConfig::default("color.header                     color3 on white");
    assert_eq!(table.header, pair(Color::Indexed(3), Color::White));
}

#[test]
fn name_must_be_followed_by_a_space() {
    let table = TColorConfig::default("color.error\ncolor.errors color1\ncolor.warningred on white\n color.debug color4");
    assert_eq!(table.error, TColor::default());
    assert_eq!(table.warning, TColor::default());
    assert_eq!(table.debug, TColor::default());
}

#[test]
fn name_is_stripped_once() {
    // What follows the name is the value, although it begins like a name.
    let table = TColorConfig::default("color.active color.active black");
    assert_eq!(table.active, pair(Color::Indexed(15), Color::Indexed(15)));
}

#[test]
fn longer_name_does_not_set_the_shorter() {
    let table = TColorConfig::default("color.uda.priority.H color1\ncolor.calendar.due.today on white\ncolor.label.sort black");
    assert_eq!(table.uda_priority, TColor::default());
    assert_eq!(table.uda_priority_h, pair(Color::Indexed(1), Color::Indexed(15)));
    assert_eq!(table.calendar_due, TColor::default());
    assert_eq!(table.calendar_due_today, pair(Color::Indexed(0), Color::White));
    assert_eq!(table.label, TColor::default());
    assert_eq!(table.label_sort, pair(Color::Black, Color::Indexed(15)));
}

#[test]
fn same_text_gives_same_table() {
    let text = "color.active color2 on color3\ncolor.tagged rgb123\ncolor.until on black\nnews.version 2.5.1\n";
    let first = TColorConfig::default(text);
    let second = TColorConfig::default(text);
    assert_eq!(first, second);
    assert_eq!(first.active, second.active);
    assert_eq!(first.tagged, pair(Color::Indexed(67), Color::Indexed(15)));
    assert_eq!(first.until, pair(Color::Indexed(0), Color::Black));
}

#[test]
fn every_name_reaches_its_field() {
    let names = [
        "active", "alternate", "blocked", "blocking", "burndown.done", "burndown.pending",
        "burndown.started", "calendar.due", "calendar.due.today", "calendar.holiday",
        "calendar.overdue", "calendar.today", "calendar.weekend", "calendar.weeknumber",
        "completed", "debug", "deleted", "due", "due.today", "error", "footnote", "header",
        "history.add", "history.delete", "history.done", "label", "label.sort", "overdue",
        "project.none", "recurring", "scheduled", "summary.background", "summary.bar",
        "sync.added", "sync.changed", "sync.rejected", "tag.next", "tag.none", "tagged",
        "uda.priority", "uda.priority.H", "uda.priority.L", "uda.priority.M", "undo.after",
        "undo.before", "until", "warning",
    ];
    let mut text = String::new();
    for (i, name) in names.iter().enumerate() {
        text.push_str(&format!("color.{} rgb0{}{}\n", name, i / 6, i % 6));
    }
    let t = TColorConfig::default(&text);
    let got = [
        t.active, t.alternate, t.blocked, t.blocking, t.burndown_done, t.burndown_pending,
        t.burndown_started, t.calendar_due, t.calendar_due_today, t.calendar_holiday,
        t.calendar_overdue, t.calendar_today, t.calendar_weekend, t.calendar_weeknumber,
        t.completed, t.debug, t.deleted, t.due, t.due_today, t.error, t.footnote, t.header,
        t.history_add, t.history_delete, t.history_done, t.label, t.label_sort, t.overdue,
        t.project, t.recurring, t.scheduled, t.summary_background, t.summary_bar,
        t.sync_added, t.sync_changed, t.sync_rejected, t.tag_next, t.tag, t.tagged,
        t.uda_priority, t.uda_priority_h, t.uda_priority_l, t.uda_priority_m, t.undo_after,
        t.undo_before, t.until, t.warning,
    ];
    for (i, found) in got.iter().enumerate() {
        assert_eq!(*found, pair(Color::Indexed(16 + i as u8), Color::Indexed(15)), "{}", names[i]);
    }
}
