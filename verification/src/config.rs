//! The table of colour settings, read from the lines of a configuration dump.
//!
//! A line makes a setting when it begins with the setting's name and a
//! space. What follows, without its leading spaces, is the value. Of
//! several lines that make the same setting the last one counts.

use crate::color::{line_pair, pair_of_line, TColor, FALLBACK_INDEX};
use crate::text::{
    begins_with, chars_of, fields, split, starts_with, trim_start, views, without_leading,
};
use tui::style::Color;
use vstd::prelude::*;
use vstd::slice::slice_subrange;

verus! {

/// `line` makes the setting `name`.
pub open spec fn sets(line: Seq<char>, name: Seq<char>) -> bool {
    begins_with(line, name.push(' '))
}

/// The value that `line` gives to the setting `name`.
pub open spec fn value_of(line: Seq<char>, name: Seq<char>) -> Seq<char> {
    without_leading(line.skip(name.len() as int), ' ')
}

/// The pair of a setting that no line makes.
pub open spec fn unset() -> TColor {
    TColor { fg: Color::Indexed(0), bg: Color::Indexed(FALLBACK_INDEX) }
}

/// The pair that `lines` give to the setting `name`: that of the last
/// line that makes it, or `unset()`.
pub open spec fn setting(lines: Seq<Seq<char>>, name: Seq<char>) -> TColor
    decreases lines.len(),
{
    if lines.len() == 0 {
        unset()
    } else if sets(lines.last(), name) {
        pair_of_line(value_of(lines.last(), name))
    } else {
        setting(lines.drop_last(), name)
    }
}

/// A setting that no line makes is `unset()`.
pub proof fn lemma_setting_absent(lines: Seq<Seq<char>>, name: Seq<char>)
    requires
        forall|i: int| 0 <= i < lines.len() ==> !sets(#[trigger] lines[i], name),
    ensures
        setting(lines, name) == unset(),
    decreases lines.len(),
{
    if lines.len() > 0 {
        lemma_setting_absent(lines.drop_last(), name);
    }
}

/// Of the lines that make a setting the last one counts, whatever the
/// lines before it say.
pub proof fn lemma_setting_last_wins(lines: Seq<Seq<char>>, name: Seq<char>, at: int)
    requires
        0 <= at < lines.len(),
        sets(lines[at], name),
        forall|i: int| at < i < lines.len() ==> !sets(#[trigger] lines[i], name),
    ensures
        setting(lines, name) == pair_of_line(value_of(lines[at], name)),
    decreases lines.len(),
{
    if at < lines.len() - 1 {
        lemma_setting_last_wins(lines.drop_last(), name, at);
    }
}

/// Tells whether `line` makes the setting `name`, and reads its value.
pub fn read_setting(line: &[char], name: &[char]) -> (pair: Option<TColor>)
    ensures
        pair == if sets(line@, name@) {
            Some(pair_of_line(value_of(line@, name@)))
        } else {
            None
        },
{
    let n = name.len();
    if starts_with(line, name) && n < line.len() && line[n] == ' ' {
        assert(line@.subrange(0, n + 1) =~= name@.push(' '));
        assert(line@.subrange(n as int, line@.len() as int) =~= line@.skip(n as int));
        let value = trim_start(slice_subrange(line, n, line.len()), ' ');
        Some(line_pair(value))
    } else {
        proof {
            if sets(line@, name@) {
                let head = line@.subrange(0, n + 1);
                assert(head[n as int] == ' ');
                assert(line@.subrange(0, n as int) =~= head.subrange(0, n as int));
                assert(head.subrange(0, n as int) =~= name@);
            }
        }
        None
    }
}

/// The pair that `lines` give to the setting `name`.
pub fn lookup(lines: &Vec<&[char]>, name: &str) -> (pair: TColor)
    ensures
        pair == setting(views(lines@), name@),
{
    let key = chars_of(name);
    let mut pair = TColor::default();
    let mut i: usize = 0;
    while i < lines.len()
        invariant
            i <= lines.len(),
            key@ == name@,
            pair == setting(views(lines@).take(i as int), name@),
        decreases lines.len() - i,
    {
        let ghost seen = views(lines@).take(i + 1);
        assert(seen.drop_last() =~= views(lines@).take(i as int));
        assert(seen.last() == lines@[i as int]@);
        match read_setting(lines[i], key.as_slice()) {
            Some(found) => {
                pair = found;
            },
            None => {},
        }
        i += 1;
    }
    assert(views(lines@).take(lines@.len() as int) =~= views(lines@));
    pair
}

/// The colours of the task list, one pair for each setting.
#[derive(Debug, Clone, Copy, PartialEq, Eq)]
pub struct TColorConfig {
    pub enabled: bool,
    pub active: TColor,
    pub alternate: TColor,
    pub blocked: TColor,
    pub blocking: TColor,
    pub burndown_done: TColor,
    pub burndown_pending: TColor,
    pub burndown_started: TColor,
    pub calendar_due: TColor,
    pub calendar_due_today: TColor,
    pub calendar_holiday: TColor,
    pub calendar_overdue: TColor,
    pub calendar_today: TColor,
    pub calendar_weekend: TColor,
    pub calendar_weeknumber: TColor,
    pub completed: TColor,
    pub debug: TColor,
    pub deleted: TColor,
    pub due: TColor,
    pub due_today: TColor,
    pub error: TColor,
    pub footnote: TColor,
    pub header: TColor,
    pub history_add: TColor,
    pub history_delete: TColor,
    pub history_done: TColor,
    pub label: TColor,
    pub label_sort: TColor,
    pub overdue: TColor,
    pub project: TColor,
    pub recurring: TColor,
    pub scheduled: TColor,
    pub summary_background: TColor,
    pub summary_bar: TColor,
    pub sync_added: TColor,
    pub sync_changed: TColor,
    pub sync_rejected: TColor,
    pub tag_next: TColor,
    pub tag: TColor,
    pub tagged: TColor,
    pub uda_priority: TColor,
    pub uda_priority_h: TColor,
    pub uda_priority_l: TColor,
    pub uda_priority_m: TColor,
    pub undo_after: TColor,
    pub undo_before: TColor,
    pub until: TColor,
    pub warning: TColor,
}

impl TColorConfig {
    /// The table that the lines of a dump give. Each field is the setting
    /// of the name beside it, and colours are always enabled.
    pub open spec fn of_lines(lines: Seq<Seq<char>>) -> TColorConfig {
        TColorConfig {
            enabled: true,
            active: setting(lines, "color.active"@),
            alternate: setting(lines, "color.alternate"@),
            blocked: setting(lines, "color.blocked"@),
            blocking: setting(lines, "color.blocking"@),
            burndown_done: setting(lines, "color.burndown.done"@),
            burndown_pending: setting(lines, "color.burndown.pending"@),
            burndown_started: setting(lines, "color.burndown.started"@),
            calendar_due: setting(lines, "color.calendar.due"@),
            calendar_due_today: setting(lines, "color.calendar.due.today"@),
            calendar_holiday: setting(lines, "color.calendar.holiday"@),
            calendar_overdue: setting(lines, "color.calendar.overdue"@),
            calendar_today: setting(lines, "color.calendar.today"@),
            calendar_weekend: setting(lines, "color.calendar.weekend"@),
            calendar_weeknumber: setting(lines, "color.calendar.weeknumber"@),
            completed: setting(lines, "color.completed"@),
            debug: setting(lines, "color.debug"@),
            deleted: setting(lines, "color.deleted"@),
            due: setting(lines, "color.due"@),
            due_today: setting(lines, "color.due.today"@),
            error: setting(lines, "color.error"@),
            footnote: setting(lines, "color.footnote"@),
            header: setting(lines, "color.header"@),
            history_add: setting(lines, "color.history.add"@),
            history_delete: setting(lines, "color.history.delete"@),
            history_done: setting(lines, "color.history.done"@),
            label: setting(lines, "color.label"@),
            label_sort: setting(lines, "color.label.sort"@),
            overdue: setting(lines, "color.overdue"@),
            project: setting(lines, "color.project.none"@),
            recurring: setting(lines, "color.recurring"@),
            scheduled: setting(lines, "color.scheduled"@),
            summary_background: setting(lines, "color.summary.background"@),
            summary_bar: setting(lines, "color.summary.bar"@),
            sync_added: setting(lines, "color.sync.added"@),
            sync_changed: setting(lines, "color.sync.changed"@),
            sync_rejected: setting(lines, "color.sync.rejected"@),
            tag_next: setting(lines, "color.tag.next"@),
            tag: setting(lines, "color.tag.none"@),
            tagged: setting(lines, "color.tagged"@),
            uda_priority: setting(lines, "color.uda.priority"@),
            uda_priority_h: setting(lines, "color.uda.priority.H"@),
            uda_priority_l: setting(lines, "color.uda.priority.L"@),
            uda_priority_m: setting(lines, "color.uda.priority.M"@),
            undo_after: setting(lines, "color.undo.after"@),
            undo_before: setting(lines, "color.undo.before"@),
            until: setting(lines, "color.until"@),
            warning: setting(lines, "color.warning"@),
        }
    }

    /// The table that the text of a dump gives, a line ending at each
    /// line feed.
    pub open spec fn of_text(data: Seq<char>) -> TColorConfig {
        Self::of_lines(fields(data, '\n'))
    }

    /// Reads the table from the text of a configuration dump. A setting
    /// that the text does not make keeps `TColor::default()`.
    pub fn default(data: &str) -> (table: Self)
        ensures
            table == Self::of_text(data@),
    {
        let text = chars_of(data);
        let lines = split(text.as_slice(), '\n');
        TColorConfig {
            enabled: true,
            active: lookup(&lines, "color.active"),
            alternate: lookup(&lines, "color.alternate"),
            blocked: lookup(&lines, "color.blocked"),
            blocking: lookup(&lines, "color.blocking"),
            burndown_done: lookup(&lines, "color.burndown.done"),
            burndown_pending: lookup(&lines, "color.burndown.pending"),
            burndown_started: lookup(&lines, "color.burndown.started"),
            calendar_due: lookup(&lines, "color.calendar.due"),
            calendar_due_today: lookup(&lines, "color.calendar.due.today"),
            calendar_holiday: lookup(&lines, "color.calendar.holiday"),
            calendar_overdue: lookup(&lines, "color.calendar.overdue"),
            calendar_today: lookup(&lines, "color.calendar.today"),
            calendar_weekend: lookup(&lines, "color.calendar.weekend"),
            calendar_weeknumber: lookup(&lines, "color.calendar.weeknumber"),
            completed: lookup(&lines, "color.completed"),
            debug: lookup(&lines, "color.debug"),
            deleted: lookup(&lines, "color.deleted"),
            due: lookup(&lines, "color.due"),
            due_today: lookup(&lines, "color.due.today"),
            error: lookup(&lines, "color.error"),
            footnote: lookup(&lines, "color.footnote"),
            header: lookup(&lines, "color.header"),
            history_add: lookup(&lines, "color.history.add"),
            history_delete: lookup(&lines, "color.history.delete"),
            history_done: lookup(&lines, "color.history.done"),
            label: lookup(&lines, "color.label"),
            label_sort: lookup(&lines, "color.label.sort"),
            overdue: lookup(&lines, "color.overdue"),
            project: lookup(&lines, "color.project.none"),
            recurring: lookup(&lines, "color.recurring"),
            scheduled: lookup(&lines, "color.scheduled"),
            summary_background: lookup(&lines, "color.summary.background"),
            summary_bar: lookup(&lines, "color.summary.bar"),
            sync_added: lookup(&lines, "color.sync.added"),
            sync_changed: lookup(&lines, "color.sync.changed"),
            sync_rejected: lookup(&lines, "color.sync.rejected"),
            tag_next: lookup(&lines, "color.tag.next"),
            tag: lookup(&lines, "color.tag.none"),
            tagged: lookup(&lines, "color.tagged"),
            uda_priority: lookup(&lines, "color.uda.priority"),
            uda_priority_h: lookup(&lines, "color.uda.priority.H"),
            uda_priority_l: lookup(&lines, "color.uda.priority.L"),
            uda_priority_m: lookup(&lines, "color.uda.priority.M"),
            undo_after: lookup(&lines, "color.undo.after"),
            undo_before: lookup(&lines, "color.undo.before"),
            until: lookup(&lines, "color.until"),
            warning: lookup(&lines, "color.warning"),
        }
    }
}

/// Two tables read from the same text are the same, field for field.
pub proof fn lemma_same_text_same_table(first: TColorConfig, second: TColorConfig, data: Seq<char>)
    requires
        first == TColorConfig::of_text(data),
        second == TColorConfig::of_text(data),
    ensures
        first == second,
        first.enabled && second.enabled,
{
}

} // verus!
