//! What the settings editor shows: the rows of the list of settings and of
//! each editor with the tone of each piece, and the text of its bars.
use vstd::prelude::*;

use crate::json::{lookup, member_lookup};
use crate::settings::{checked_names, item_views, EditorState, FieldItem, SettingsState, SettingsView};
use crate::text::{decimal, spaces, spaces_text, texts, u64_to_string};

verus! {

/// How a piece of a row is shown.
#[derive(Clone, Copy, Debug, PartialEq, Eq, Structural)]
pub enum RowTone {
    /// The name of a group of settings.
    Heading,
    /// The row under the cursor.
    Highlight,
    /// An ordinary row.
    Normal,
    /// A dimmed row or summary.
    Dim,
    /// A checked field.
    Checked,
    /// A checked field under the cursor.
    CheckedHighlight,
    /// An unchecked field under the cursor.
    Emphasis,
    /// The note that all fields are selected.
    Wildcard,
    /// The summary of a setting with a pending change.
    Changed,
}

/// A piece of a row with its tone.
pub struct Piece {
    pub text: String,
    pub tone: RowTone,
}

impl View for Piece {
    type V = (Seq<char>, RowTone);

    open spec fn view(&self) -> (Seq<char>, RowTone) {
        (self.text@, self.tone)
    }
}

/// A row as the texts and tones of its pieces.
pub type RowView = Seq<(Seq<char>, RowTone)>;

/// The view of a row.
pub open spec fn row_view(r: Seq<Piece>) -> RowView {
    r.map_values(|p: Piece| p@)
}

/// The views of a list of rows.
pub open spec fn rows_view(rs: Seq<Vec<Piece>>) -> Seq<RowView> {
    rs.map_values(|r: Vec<Piece>| row_view(r@))
}

/// The cursor mark of a row.
pub open spec fn pointer(selected: bool) -> Seq<char> {
    if selected {
        ">"@
    } else {
        " "@
    }
}

/// The row of field `i` in a field editor: checked fields are marked with
/// their rank among the checked ones when the order matters, else with `x`.
pub open spec fn field_row(items: Seq<(Seq<char>, bool)>, i: int, cursor: int, ordered: bool) -> RowView {
    let sel = i == cursor;
    if items[i].1 {
        let mark = if ordered {
            "["@ + decimal(checked_names(items.take(i + 1)).len()) + "]"@
        } else {
            "[x]"@
        };
        seq![
            (" "@ + pointer(sel) + " "@ + mark + " "@ + items[i].0, if sel {
                RowTone::CheckedHighlight
            } else {
                RowTone::Checked
            }),
        ]
    } else {
        seq![
            (" "@ + pointer(sel) + " "@ + "[ ]"@ + " "@ + items[i].0, if sel {
                RowTone::Emphasis
            } else {
                RowTone::Dim
            }),
        ]
    }
}

/// The rows of a field editor: with the wildcard on, a note and every field
/// dimmed; else each field with its check mark.
pub open spec fn field_rows_of(items: Seq<(Seq<char>, bool)>, cursor: int, ordered: bool, wildcard: bool) -> Seq<RowView> {
    if wildcard {
        seq![seq![("   [*] All fields (wildcard)"@, RowTone::Wildcard)]] + Seq::new(
            items.len(),
            |i: int| seq![("       "@ + items[i].0, RowTone::Dim)],
        )
    } else {
        Seq::new(items.len(), |i: int| field_row(items, i, cursor, ordered))
    }
}

/// The row of item `i` of a string list: its number from one and its text.
pub open spec fn list_row(items: Seq<Seq<char>>, i: int, cursor: int, adding: bool) -> RowView {
    let sel = i == cursor && !adding;
    seq![
        (" "@ + pointer(sel) + " "@ + decimal((i + 1) as nat) + ". "@ + items[i], if sel {
            RowTone::Highlight
        } else {
            RowTone::Normal
        }),
    ]
}

/// The rows of a string list editor.
pub open spec fn list_rows_of(items: Seq<Seq<char>>, cursor: int, adding: bool) -> Seq<RowView> {
    Seq::new(items.len(), |i: int| list_row(items, i, cursor, adding))
}

/// The row of option `i` of a select editor.
pub open spec fn select_row(options: Seq<Seq<char>>, i: int, cursor: int) -> RowView {
    let sel = i == cursor;
    seq![
        ("  "@ + (if sel {
            "(*)"@
        } else {
            "( )"@
        }) + " "@ + options[i], if sel {
            RowTone::Highlight
        } else {
            RowTone::Normal
        }),
    ]
}

/// The rows of a select editor.
pub open spec fn select_rows_of(options: Seq<Seq<char>>, cursor: int) -> Seq<RowView> {
    Seq::new(options.len(), |i: int| select_row(options, i, cursor))
}

/// The value line of a number editor.
pub open spec fn number_line_of(input: Seq<char>) -> Seq<char> {
    "  Value: "@ + if input.len() == 0 {
        "(null / default)"@
    } else {
        input
    }
}

/// `s` padded with spaces to `w` characters.
pub open spec fn pad_to(s: Seq<char>, w: nat) -> Seq<char> {
    if s.len() < w {
        s + spaces((w - s.len()) as nat)
    } else {
        s
    }
}

/// The heading row of a group of settings.
pub open spec fn group_row(group: Seq<char>) -> RowView {
    seq![("  "@ + group, RowTone::Heading)]
}

/// The row of a setting: its change mark, the cursor, its name and the
/// summary of its value.
pub open spec fn setting_row(slug: Seq<char>, changed: bool, sel: bool, summary: Seq<char>) -> RowView {
    seq![
        (" "@ + (if changed {
            "*"@
        } else {
            " "@
        }) + pointer(sel) + " "@ + pad_to(slug, 28), if sel {
            RowTone::Highlight
        } else {
            RowTone::Normal
        }),
        (summary, if changed {
            RowTone::Changed
        } else {
            RowTone::Dim
        }),
    ]
}

/// The group of the setting before `i` (none before the first).
pub open spec fn previous_group(s: SettingsState, i: int) -> Seq<char> {
    if i == 0 {
        Seq::empty()
    } else {
        s.resources@[i - 1]@.3
    }
}

/// The rows of the first `n` settings, each group under its heading.
pub open spec fn resource_rows_upto(s: SettingsState, summaries: Seq<Seq<char>>, n: nat) -> Seq<RowView>
    decreases n,
{
    if n == 0 {
        Seq::empty()
    } else {
        let i = n - 1;
        let d = s.resources@[i]@;
        resource_rows_upto(s, summaries, (n - 1) as nat) + (if d.3 != previous_group(s, i) {
            seq![group_row(d.3)]
        } else {
            Seq::empty()
        }) + seq![setting_row(d.0, member_lookup(s.changes@, d.1) is Some, i == s.res_cursor, summaries[i])]
    }
}

/// The note about pending changes.
pub open spec fn changes_note(n: nat) -> Seq<char> {
    if n > 0 {
        " | "@ + decimal(n) + " unsaved change(s) — press s to save"@
    } else {
        Seq::empty()
    }
}

/// The status bar: the last message, else the keys of the list of
/// settings; then the note about pending changes.
pub open spec fn status_line_of(s: SettingsState) -> Seq<char> {
    let note = changes_note(s.changes@.len());
    if s.status_msg@.len() > 0 {
        " "@ + s.status_msg@ + note
    } else if s.view == SettingsView::ResourceList {
        " Up/Down navigate | Enter edit | s save | q quit"@ + note
    } else {
        note
    }
}

/// The keys an editor offers.
pub open spec fn editor_hints_of(e: EditorState) -> Seq<char> {
    match e {
        EditorState::Field { ordered, .. } => if ordered {
            " Space toggle | Shift+Up/Down reorder | * wildcard | Esc back "@
        } else {
            " Space toggle | Esc back "@
        },
        EditorState::StringList { adding, .. } => if adding {
            " Enter confirm | Esc cancel "@
        } else {
            " a add | d delete | Shift+Up/Down reorder | Esc back "@
        },
        EditorState::Select { .. } => " Up/Down navigate | Enter select | Esc back "@,
        EditorState::Number { .. } => " Type digits | Backspace clear | Enter confirm | Esc back "@,
        EditorState::Closed => Seq::empty(),
    }
}

/// Appends a row.
fn push_row(out: &mut Vec<Vec<Piece>>, row: Vec<Piece>)
    ensures
        rows_view(final(out)@) == rows_view(old(out)@).push(row_view(row@)),
{
    let ghost before = rows_view(out@);
    out.push(row);
    assert(rows_view(out@) =~= before.push(row_view(row@)));
}

/// A row of one piece.
fn single(text: String, tone: RowTone) -> (r: Vec<Piece>)
    ensures
        row_view(r@) == seq![(text@, tone)],
{
    let mut r: Vec<Piece> = Vec::new();
    r.push(Piece { text, tone });
    assert(row_view(r@) =~= seq![(text@, tone)]);
    r
}

/// The cursor mark of a row.
fn pointer_text(selected: bool) -> (r: &'static str)
    ensures
        r@ == pointer(selected),
{
    if selected {
        ">"
    } else {
        " "
    }
}

/// The rows of a field editor.
pub fn field_rows(items: &Vec<FieldItem>, cursor: usize, ordered: bool, wildcard: bool) -> (r: Vec<Vec<Piece>>)
    ensures
        rows_view(r@) == field_rows_of(item_views(items@), cursor as int, ordered, wildcard),
{
    let ghost iv = item_views(items@);
    let mut out: Vec<Vec<Piece>> = Vec::new();
    let n = items.len();
    if wildcard {
        push_row(&mut out, single(String::from_str("   [*] All fields (wildcard)"), RowTone::Wildcard));
        let mut i: usize = 0;
        while i < n
            invariant
                n == items@.len(),
                iv == item_views(items@),
                i <= n,
                rows_view(out@) == seq![seq![("   [*] All fields (wildcard)"@, RowTone::Wildcard)]] + Seq::new(
                    i as nat,
                    |k: int| seq![("       "@ + iv[k].0, RowTone::Dim)],
                ),
            decreases n - i,
        {
            let mut t = String::from_str("       ");
            t.append(items[i].name.as_str());
            push_row(&mut out, single(t, RowTone::Dim));
            assert(Seq::new((i + 1) as nat, |k: int| seq![("       "@ + iv[k].0, RowTone::Dim)]) =~= Seq::new(
                i as nat,
                |k: int| seq![("       "@ + iv[k].0, RowTone::Dim)],
            ).push(seq![("       "@ + iv[i as int].0, RowTone::Dim)]));
            i = i + 1;
        }
        assert(rows_view(out@) =~= field_rows_of(iv, cursor as int, ordered, wildcard));
    } else {
        let mut count: usize = 0;
        let mut i: usize = 0;
        assert(iv.take(0) =~= Seq::<(Seq<char>, bool)>::empty());
        while i < n
            invariant
                n == items@.len(),
                iv == item_views(items@),
                i <= n,
                count <= i,
                count == checked_names(iv.take(i as int)).len(),
                rows_view(out@) == Seq::new(i as nat, |k: int| field_row(iv, k, cursor as int, ordered)),
            decreases n - i,
        {
            let sel = i == cursor;
            assert(iv[i as int] == items@[i as int]@);
            assert(iv.take(i + 1).drop_last() =~= iv.take(i as int));
            assert(iv.take(i + 1).last() == iv[i as int]);
            assert(items@[i as int].checked ==> checked_names(iv.take(i + 1)).len() == count + 1);
            assert(!items@[i as int].checked ==> checked_names(iv.take(i + 1)).len() == count);
            let mut t = String::from_str(" ");
            t.append(pointer_text(sel));
            t.append(" ");
            let tone;
            if items[i].checked {
                count = count + 1;
                if ordered {
                    t.append("[");
                    let d = u64_to_string(count as u64);
                    t.append(d.as_str());
                    t.append("]");
                } else {
                    t.append("[x]");
                }
                tone = if sel {
                    RowTone::CheckedHighlight
                } else {
                    RowTone::Checked
                };
            } else {
                t.append("[ ]");
                tone = if sel {
                    RowTone::Emphasis
                } else {
                    RowTone::Dim
                };
            }
            t.append(" ");
            t.append(items[i].name.as_str());
            let ghost row = field_row(iv, i as int, cursor as int, ordered);
            proof {
                if iv[i as int].1 {
                    let mark = if ordered {
                        "["@ + decimal(checked_names(iv.take(i + 1)).len()) + "]"@
                    } else {
                        "[x]"@
                    };
                    assert(t@ =~= " "@ + pointer(sel) + " "@ + mark + " "@ + iv[i as int].0);
                } else {
                    assert(t@ =~= " "@ + pointer(sel) + " "@ + "[ ]"@ + " "@ + iv[i as int].0);
                }
            }
            assert(seq![(t@, tone)] =~= row);
            push_row(&mut out, single(t, tone));
            assert(Seq::new((i + 1) as nat, |k: int| field_row(iv, k, cursor as int, ordered)) =~= Seq::new(
                i as nat,
                |k: int| field_row(iv, k, cursor as int, ordered),
            ).push(row));
            i = i + 1;
        }
        assert(rows_view(out@) =~= field_rows_of(iv, cursor as int, ordered, wildcard));
    }
    out
}

/// The rows of a string list editor.
pub fn list_rows(items: &Vec<String>, cursor: usize, adding: bool) -> (r: Vec<Vec<Piece>>)
    requires
        items@.len() < u64::MAX,
    ensures
        rows_view(r@) == list_rows_of(texts(items@), cursor as int, adding),
{
    let ghost ts = texts(items@);
    let mut out: Vec<Vec<Piece>> = Vec::new();
    let n = items.len();
    let mut i: usize = 0;
    while i < n
        invariant
            n == items@.len(),
            n < u64::MAX,
            ts == texts(items@),
            i <= n,
            rows_view(out@) == Seq::new(i as nat, |k: int| list_row(ts, k, cursor as int, adding)),
        decreases n - i,
    {
        let sel = i == cursor && !adding;
        let mut t = String::from_str(" ");
        t.append(pointer_text(sel));
        t.append(" ");
        let d = u64_to_string((i as u64) + 1);
        t.append(d.as_str());
        t.append(". ");
        t.append(items[i].as_str());
        let tone = if sel {
            RowTone::Highlight
        } else {
            RowTone::Normal
        };
        let ghost row = list_row(ts, i as int, cursor as int, adding);
        assert(t@ =~= " "@ + pointer(sel) + " "@ + decimal((i + 1) as nat) + ". "@ + ts[i as int]);
        assert(seq![(t@, tone)] =~= row);
        push_row(&mut out, single(t, tone));
        assert(Seq::new((i + 1) as nat, |k: int| list_row(ts, k, cursor as int, adding)) =~= Seq::new(
            i as nat,
            |k: int| list_row(ts, k, cursor as int, adding),
        ).push(row));
        i = i + 1;
    }
    out
}

/// The rows of a select editor.
pub fn select_rows(options: &Vec<String>, cursor: usize) -> (r: Vec<Vec<Piece>>)
    ensures
        rows_view(r@) == select_rows_of(texts(options@), cursor as int),
{
    let ghost ts = texts(options@);
    let mut out: Vec<Vec<Piece>> = Vec::new();
    let n = options.len();
    let mut i: usize = 0;
    while i < n
        invariant
            n == options@.len(),
            ts == texts(options@),
            i <= n,
            rows_view(out@) == Seq::new(i as nat, |k: int| select_row(ts, k, cursor as int)),
        decreases n - i,
    {
        let sel = i == cursor;
        let mut t = String::from_str("  ");
        if sel {
            t.append("(*)");
        } else {
            t.append("( )");
        }
        t.append(" ");
        t.append(options[i].as_str());
        let tone = if sel {
            RowTone::Highlight
        } else {
            RowTone::Normal
        };
        let ghost row = select_row(ts, i as int, cursor as int);
        assert(seq![(t@, tone)] =~= row);
        push_row(&mut out, single(t, tone));
        assert(Seq::new((i + 1) as nat, |k: int| select_row(ts, k, cursor as int)) =~= Seq::new(
            i as nat,
            |k: int| select_row(ts, k, cursor as int),
        ).push(row));
        i = i + 1;
    }
    out
}

/// The value line of a number editor.
pub fn number_line(input: &str) -> (r: String)
    ensures
        r@ == number_line_of(input@),
{
    let mut t = String::from_str("  Value: ");
    if input.unicode_len() == 0 {
        t.append("(null / default)");
    } else {
        t.append(input);
    }
    t
}

/// The keys an editor offers.
pub fn editor_hints(e: &EditorState) -> (r: &'static str)
    ensures
        r@ == editor_hints_of(*e),
{
    match e {
        EditorState::Field { ordered, .. } => if *ordered {
            " Space toggle | Shift+Up/Down reorder | * wildcard | Esc back "
        } else {
            " Space toggle | Esc back "
        },
        EditorState::StringList { adding, .. } => if *adding {
            " Enter confirm | Esc cancel "
        } else {
            " a add | d delete | Shift+Up/Down reorder | Esc back "
        },
        EditorState::Select { .. } => " Up/Down navigate | Enter select | Esc back ",
        EditorState::Number { .. } => " Type digits | Backspace clear | Enter confirm | Esc back ",
        EditorState::Closed => {
            proof {
                reveal_strlit("");
            }
            ""
        },
    }
}

/// `s` padded with spaces to `w` characters.
fn pad_text(s: &str, w: usize) -> (r: String)
    ensures
        r@ == pad_to(s@, w as nat),
{
    let mut t = String::from_str(s);
    let n = s.unicode_len();
    if n < w {
        let pad = spaces_text(w - n);
        t.append(pad.as_str());
    }
    t
}

impl SettingsState {
    /// The rows of the list of settings, given the summary of each
    /// setting's value in the same order.
    pub fn resource_rows(&self, summaries: &Vec<String>) -> (r: Vec<Vec<Piece>>)
        requires
            summaries@.len() == self.resources@.len(),
        ensures
            rows_view(r@) == resource_rows_upto(*self, texts(summaries@), self.resources@.len()),
    {
        let ghost ss = texts(summaries@);
        let mut out: Vec<Vec<Piece>> = Vec::new();
        let n = self.resources.len();
        let mut i: usize = 0;
        while i < n
            invariant
                n == self.resources@.len(),
                summaries@.len() == n,
                ss == texts(summaries@),
                i <= n,
                rows_view(out@) == resource_rows_upto(*self, ss, i as nat),
            decreases n - i,
        {
            let ghost before = rows_view(out@);
            let def = &self.resources[i];
            let new_group = if i == 0 {
                def.group.unicode_len() != 0
            } else {
                !crate::text::str_eq(def.group, self.resources[i - 1].group)
            };
            proof {
                if i == 0 && !new_group {
                    assert(def.group@ =~= Seq::<char>::empty());
                }
            }
            proof {
                if i == 0 {
                    assert(previous_group(*self, 0) =~= Seq::<char>::empty());
                }
            }
            if new_group {
                let mut g = String::from_str("  ");
                g.append(def.group);
                push_row(&mut out, single(g, RowTone::Heading));
            }
            let changed = lookup(&self.changes, def.key).is_some();
            let sel = i == self.res_cursor;
            let mut name = String::from_str(" ");
            if changed {
                name.append("*");
            } else {
                name.append(" ");
            }
            name.append(pointer_text(sel));
            name.append(" ");
            let padded = pad_text(def.slug, 28);
            name.append(padded.as_str());
            let mut row: Vec<Piece> = Vec::new();
            row.push(Piece {
                text: name,
                tone: if sel {
                    RowTone::Highlight
                } else {
                    RowTone::Normal
                },
            });
            row.push(Piece {
                text: summaries[i].clone(),
                tone: if changed {
                    RowTone::Changed
                } else {
                    RowTone::Dim
                },
            });
            let ghost d = self.resources@[i as int]@;
            assert(new_group == (d.3 != previous_group(*self, i as int)));
            assert(resource_rows_upto(*self, ss, (i + 1) as nat) == resource_rows_upto(*self, ss, i as nat) + (if d.3
                != previous_group(*self, i as int) {
                seq![group_row(d.3)]
            } else {
                Seq::<RowView>::empty()
            }) + seq![setting_row(d.0, member_lookup(self.changes@, d.1) is Some, i == self.res_cursor, ss[i as int])]);
            assert(row_view(row@) =~= setting_row(d.0, member_lookup(self.changes@, d.1) is Some, i == self.res_cursor, ss[i as int]));
            push_row(&mut out, row);
            proof {
                if new_group {
                    assert(rows_view(out@) =~= before + seq![group_row(d.3)] + seq![
                        setting_row(d.0, member_lookup(self.changes@, d.1) is Some, i == self.res_cursor, ss[i as int]),
                    ]);
                } else {
                    assert(rows_view(out@) =~= before + Seq::<RowView>::empty() + seq![
                        setting_row(d.0, member_lookup(self.changes@, d.1) is Some, i == self.res_cursor, ss[i as int]),
                    ]);
                }
            }
            i = i + 1;
        }
        out
    }

    /// The status bar.
    pub fn status_line(&self) -> (r: String)
        ensures
            r@ == status_line_of(*self),
    {
        let n = self.changes.len();
        let mut note = String::new();
        if n > 0 {
            note.append(" | ");
            let d = u64_to_string(n as u64);
            note.append(d.as_str());
            note.append(" unsaved change(s) — press s to save");
        }
        assert(note@ =~= changes_note(n as nat));
        if self.status_msg.as_str().unicode_len() > 0 {
            let mut t = String::from_str(" ");
            t.append(self.status_msg.as_str());
            t.append(note.as_str());
            t
        } else if self.view == SettingsView::ResourceList {
            let mut t = String::from_str(" Up/Down navigate | Enter edit | s save | q quit");
            t.append(note.as_str());
            t
        } else {
            note
        }
    }
}

} // verus!
