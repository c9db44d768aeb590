//! Importing documents: the content type a file is sent as, and how an
//! NDJSON file is cut into batches of bounded size.
use vstd::prelude::*;

use crate::json::Json;
use crate::text::{join, join_strings, lines_of, text_lines, texts, trim, trimmed, utf8_bytes, utf8_len};

verus! {

/// The extension of a file path, as `Path::extension` gives it (the text
/// after the last dot of the file name, when the name has a dot that does
/// not start it). Which characters separate directories is fixed by the
/// platform the program is built for (`\` only on Windows), so this is a
/// function of the path for a given build.
pub uninterp spec fn path_extension(path: Seq<char>) -> Option<Seq<char>>;

/// The extension of a file path.
///
/// Calls `std::path::Path::extension` and reads the result as text; the
/// contract claims only that the result depends on the path alone.
#[verifier::external_body]
fn file_extension(path: &str) -> (r: Option<String>)
    ensures
        match r {
            Some(e) => path_extension(path@) == Some(e@),
            None => path_extension(path@) is None,
        },
{
    std::path::Path::new(path).extension().and_then(|e| e.to_str()).map(|e| e.to_string())
}

/// The content type of a file with this extension.
pub open spec fn content_type_of(ext: Option<Seq<char>>) -> Seq<char> {
    match ext {
        Some(e) => if e == "csv"@ {
            "text/csv"@
        } else if e == "ndjson"@ || e == "jsonl"@ {
            "application/x-ndjson"@
        } else {
            "application/json"@
        },
        None => "application/json"@,
    }
}

/// The content type of a file with this extension: CSV, NDJSON (`.ndjson`
/// or `.jsonl`), else JSON.
pub fn content_type_for(ext: Option<&str>) -> (r: &'static str)
    ensures
        r@ == content_type_of(
            match ext {
                Some(e) => Some(e@),
                None => None,
            },
        ),
{
    match ext {
        Some(e) => {
            if crate::text::str_eq(e, "csv") {
                "text/csv"
            } else if crate::text::str_eq(e, "ndjson") || crate::text::str_eq(e, "jsonl") {
                "application/x-ndjson"
            } else {
                "application/json"
            }
        },
        None => "application/json",
    }
}

/// The content type documents are sent as: by the file's extension, and
/// JSON when they come from standard input.
pub fn document_content_type(file: Option<&str>) -> (r: &'static str)
    ensures
        r@ == match file {
            Some(p) => content_type_of(path_extension(p@)),
            None => "application/json"@,
        },
{
    match file {
        Some(p) => {
            let ext = file_extension(p);
            match ext {
                Some(e) => content_type_for(Some(e.as_str())),
                None => content_type_for(None),
            }
        },
        None => "application/json",
    }
}

/// The lines of an NDJSON text that are not blank, in order.
pub open spec fn kept_lines(lines: Seq<Seq<char>>) -> Seq<Seq<char>>
    decreases lines.len(),
{
    if lines.len() == 0 {
        Seq::empty()
    } else if trimmed(lines.last()).len() == 0 {
        kept_lines(lines.drop_last())
    } else {
        kept_lines(lines.drop_last()).push(lines.last())
    }
}

/// What a line counts toward a batch's size: its bytes and a line break.
pub open spec fn line_cost(l: Seq<char>) -> nat {
    utf8_bytes(l).len() + 1
}

/// The batches the lines fall into: a line joins the current batch unless
/// that would take the batch over `size` bytes (a batch always takes at
/// least one line).
pub open spec fn group_lines(lines: Seq<Seq<char>>, size: nat, cur: Seq<Seq<char>>, cur_bytes: nat) -> Seq<
    Seq<Seq<char>>,
>
    decreases lines.len(),
{
    if lines.len() == 0 {
        if cur.len() > 0 {
            seq![cur]
        } else {
            Seq::empty()
        }
    } else {
        let lb = line_cost(lines[0]);
        if cur_bytes + lb > size && cur.len() > 0 {
            seq![cur] + group_lines(lines.drop_first(), size, seq![lines[0]], lb)
        } else {
            group_lines(lines.drop_first(), size, cur.push(lines[0]), cur_bytes + lb)
        }
    }
}

/// The payloads an NDJSON text is sent in: its non-blank lines, in batches
/// of at most `size` bytes, each joined with line breaks.
pub open spec fn ndjson_payloads(text: Seq<char>, size: nat) -> Seq<Seq<char>> {
    group_lines(kept_lines(lines_of(text)), size, Seq::empty(), 0).map_values(
        |g: Seq<Seq<char>>| join(g, "\n"@),
    )
}

/// The non-blank lines.
fn non_blank(lines: &Vec<String>) -> (r: Vec<String>)
    ensures
        texts(r@) == kept_lines(texts(lines@)),
{
    let mut out: Vec<String> = Vec::new();
    let mut i: usize = 0;
    while i < lines.len()
        invariant
            i <= lines@.len(),
            texts(out@) == kept_lines(texts(lines@).take(i as int)),
        decreases lines@.len() - i,
    {
        assert(texts(lines@).take(i + 1).drop_last() =~= texts(lines@).take(i as int));
        let t = trim(lines[i].as_str());
        if !t.as_str().is_empty() {
            let ghost before = texts(out@);
            out.push(lines[i].clone());
            assert(texts(out@) =~= before.push(lines@[i as int]@));
        }
        i = i + 1;
    }
    assert(texts(lines@).take(lines@.len() as int) =~= texts(lines@));
    out
}

/// Cuts an NDJSON text into payloads, as `ndjson_payloads` says.
pub fn ndjson_batches(text: &str, batch_size: usize) -> (r: Vec<String>)
    ensures
        texts(r@) == ndjson_payloads(text@, batch_size as nat),
{
    let lines = text_lines(text);
    let kept = non_blank(&lines);
    let ghost k = texts(kept@);
    assert(k == kept_lines(lines_of(text@)));
    let mut out: Vec<String> = Vec::new();
    let mut cur: Vec<String> = Vec::new();
    let mut cur_bytes: u128 = 0;
    let mut i: usize = 0;
    assert(k.skip(0) =~= k);
    assert(texts(cur@) =~= Seq::<Seq<char>>::empty());
    assert(texts(out@) =~= Seq::<Seq<char>>::empty());
    while i < kept.len()
        invariant
            k == texts(kept@),
            i <= kept@.len(),
            cur_bytes <= batch_size || cur_bytes <= 4 * (usize::MAX as u128) + 1,
            cur@.len() == 0 ==> cur_bytes == 0,
            texts(out@) + group_lines(k.skip(i as int), batch_size as nat, texts(cur@), cur_bytes as nat).map_values(
                |g: Seq<Seq<char>>| join(g, "\n"@),
            ) == group_lines(k, batch_size as nat, Seq::empty(), 0).map_values(
                |g: Seq<Seq<char>>| join(g, "\n"@),
            ),
        decreases kept@.len() - i,
    {
        let line = kept[i].as_str();
        let n = line.unicode_len();
        proof {
            crate::text::lemma_utf8_len_bound(line@);
        }
        let lb = utf8_len(line) + 1;
        let ghost rest = k.skip(i as int);
        let ghost old_bytes = cur_bytes;
        let ghost group = texts(cur@);
        let ghost before = texts(out@);
        assert(rest[0] == line@);
        assert(rest.drop_first() =~= k.skip(i + 1));
        if cur_bytes + lb > batch_size as u128 && cur.len() > 0 {
            let payload = join_strings(&cur, "\n");
            out.push(payload);
            assert(texts(out@) =~= before.push(join(group, "\n"@)));
            let mut next: Vec<String> = Vec::new();
            next.push(kept[i].clone());
            assert(texts(next@) =~= seq![line@]);
            cur = next;
            cur_bytes = lb;
            proof {
                let x = group_lines(k.skip(i + 1), batch_size as nat, seq![line@], lb as nat);
                assert(group_lines(rest, batch_size as nat, group, old_bytes as nat) == seq![group] + x);
                assert((seq![group] + x).map_values(|g: Seq<Seq<char>>| join(g, "\n"@)) =~= seq![join(group, "\n"@)] + x.map_values(|g: Seq<Seq<char>>| join(g, "\n"@)));
                assert(texts(out@) + x.map_values(|g: Seq<Seq<char>>| join(g, "\n"@)) =~= before + (seq![group] + x).map_values(|g: Seq<Seq<char>>| join(g, "\n"@)));
            }
        } else {
            cur.push(kept[i].clone());
            assert(texts(cur@) =~= group.push(line@));
            cur_bytes = cur_bytes + lb;
            assert(group_lines(rest, batch_size as nat, group, old_bytes as nat) == group_lines(k.skip(i + 1), batch_size as nat, group.push(line@), cur_bytes as nat));
        }
        i = i + 1;
    }
    assert(k.skip(i as int) =~= Seq::<Seq<char>>::empty());
    if cur.len() > 0 {
        let ghost before = texts(out@);
        let ghost group = texts(cur@);
        let payload = join_strings(&cur, "\n");
        out.push(payload);
        assert(texts(out@) =~= before.push(join(group, "\n"@)));
        assert(seq![group].map_values(|g: Seq<Seq<char>>| join(g, "\n"@)) =~= seq![join(group, "\n"@)]);
    } else {
        assert(Seq::<Seq<Seq<char>>>::empty().map_values(|g: Seq<Seq<char>>| join(g, "\n"@)) =~= Seq::<Seq<char>>::empty());
        assert(texts(out@) + Seq::<Seq<char>>::empty() =~= texts(out@));
    }
    out
}

/// Batching loses no line and repeats none: the batches, one after the
/// other, are the lines in their order.
pub proof fn law_batches_keep_every_line(lines: Seq<Seq<char>>, size: nat)
    ensures
        group_lines(lines, size, Seq::empty(), 0).flatten() == lines,
{
    lemma_group_flatten(lines, size, Seq::empty(), 0);
    assert(Seq::<Seq<char>>::empty() + lines =~= lines);
}

proof fn lemma_group_flatten(lines: Seq<Seq<char>>, size: nat, cur: Seq<Seq<char>>, cur_bytes: nat)
    ensures
        group_lines(lines, size, cur, cur_bytes).flatten() == cur + lines,
    decreases lines.len(),
{
    if lines.len() == 0 {
        if cur.len() > 0 {
            seq![cur].lemma_flatten_one_element();
        }
        assert(cur + lines =~= cur);
    } else {
        let lb = line_cost(lines[0]);
        if cur_bytes + lb > size && cur.len() > 0 {
            let x = group_lines(lines.drop_first(), size, seq![lines[0]], lb);
            lemma_group_flatten(lines.drop_first(), size, seq![lines[0]], lb);
            vstd::seq_lib::lemma_flatten_concat(seq![cur], x);
            seq![cur].lemma_flatten_one_element();
            assert(cur + (seq![lines[0]] + lines.drop_first()) =~= cur + lines);
        } else {
            lemma_group_flatten(lines.drop_first(), size, cur.push(lines[0]), cur_bytes + lb);
            assert(cur.push(lines[0]) + lines.drop_first() =~= cur + lines);
        }
    }
}

/// The total cost of some lines.
pub open spec fn lines_cost(g: Seq<Seq<char>>) -> nat
    decreases g.len(),
{
    if g.len() == 0 {
        0
    } else {
        lines_cost(g.drop_last()) + line_cost(g.last())
    }
}

/// Only a batch of a single line may exceed the size.
pub proof fn law_batches_within_size(lines: Seq<Seq<char>>, size: nat, i: int)
    requires
        0 <= i < group_lines(lines, size, Seq::empty(), 0).len(),
        group_lines(lines, size, Seq::empty(), 0)[i].len() > 1,
    ensures
        lines_cost(group_lines(lines, size, Seq::empty(), 0)[i]) <= size,
{
    lemma_group_size(lines, size, Seq::empty(), 0, i);
}

proof fn lemma_group_size(lines: Seq<Seq<char>>, size: nat, cur: Seq<Seq<char>>, cur_bytes: nat, i: int)
    requires
        cur_bytes == lines_cost(cur),
        cur.len() > 1 ==> cur_bytes <= size,
        0 <= i < group_lines(lines, size, cur, cur_bytes).len(),
        group_lines(lines, size, cur, cur_bytes)[i].len() > 1,
    ensures
        lines_cost(group_lines(lines, size, cur, cur_bytes)[i]) <= size,
    decreases lines.len(),
{
    if lines.len() > 0 {
        let lb = line_cost(lines[0]);
        assert(cur.push(lines[0]).drop_last() =~= cur);
        if cur_bytes + lb > size && cur.len() > 0 {
            let x = group_lines(lines.drop_first(), size, seq![lines[0]], lb);
            assert(seq![lines[0]].drop_last() =~= Seq::<Seq<char>>::empty());
            assert(seq![lines[0]].last() == lines[0]);
            assert(lines_cost(Seq::<Seq<char>>::empty()) == 0);
            assert(lines_cost(seq![lines[0]]) == lb);
            if i > 0 {
                assert((seq![cur] + x)[i] == x[i - 1]);
                lemma_group_size(lines.drop_first(), size, seq![lines[0]], lb, i - 1);
            }
        } else {
            lemma_group_size(lines.drop_first(), size, cur.push(lines[0]), cur_bytes + lb, i);
        }
    }
}

/// The cost of a batch grows by the cost of the line added to it.
proof fn lemma_cost_push(g: Seq<Seq<char>>, l: Seq<char>)
    ensures
        lines_cost(g.push(l)) == lines_cost(g) + line_cost(l),
{
    assert(g.push(l).drop_last() =~= g);
}

/// The cost of lines, counted from the first one.
proof fn lemma_cost_first(g: Seq<Seq<char>>)
    requires
        g.len() > 0,
    ensures
        lines_cost(g) == line_cost(g[0]) + lines_cost(g.drop_first()),
    decreases g.len(),
{
    if g.len() == 1 {
        assert(g.drop_last() =~= Seq::<Seq<char>>::empty());
        assert(g.drop_first() =~= Seq::<Seq<char>>::empty());
    } else {
        lemma_cost_first(g.drop_last());
        assert(g.drop_last().drop_first() =~= g.drop_first().drop_last());
        assert(g.drop_first().last() == g.last());
    }
}

/// Every batch has a line, and the first batch starts with the lines
/// already gathered.
proof fn lemma_group_shape(lines: Seq<Seq<char>>, size: nat, cur: Seq<Seq<char>>, cur_bytes: nat)
    ensures
        forall|i: int|
            0 <= i < group_lines(lines, size, cur, cur_bytes).len() ==> #[trigger] group_lines(
                lines,
                size,
                cur,
                cur_bytes,
            )[i].len() > 0,
        cur.len() > 0 ==> group_lines(lines, size, cur, cur_bytes).len() > 0 && group_lines(
            lines,
            size,
            cur,
            cur_bytes,
        )[0].len() >= cur.len() && forall|j: int|
            0 <= j < cur.len() ==> #[trigger] group_lines(lines, size, cur, cur_bytes)[0][j] == cur[j],
        lines.len() > 0 ==> group_lines(lines, size, cur, cur_bytes).len() > 0,
    decreases lines.len(),
{
    if lines.len() > 0 {
        let lb = line_cost(lines[0]);
        if cur_bytes + lb > size && cur.len() > 0 {
            let x = group_lines(lines.drop_first(), size, seq![lines[0]], lb);
            lemma_group_shape(lines.drop_first(), size, seq![lines[0]], lb);
            assert forall|i: int| 0 <= i < (seq![cur] + x).len() implies #[trigger] (seq![cur] + x)[i].len() > 0 by {
                if i > 0 {
                    assert((seq![cur] + x)[i] == x[i - 1]);
                }
            }
        } else {
            lemma_group_shape(lines.drop_first(), size, cur.push(lines[0]), cur_bytes + lb);
            let r = group_lines(lines.drop_first(), size, cur.push(lines[0]), cur_bytes + lb);
            assert forall|j: int| 0 <= j < cur.len() implies #[trigger] r[0][j] == cur[j] by {
                assert(r[0][j] == cur.push(lines[0])[j]);
            }
        }
    }
}

proof fn lemma_group_maximal(lines: Seq<Seq<char>>, size: nat, cur: Seq<Seq<char>>, cur_bytes: nat, i: int)
    requires
        cur_bytes == lines_cost(cur),
        0 <= i,
        i + 1 < group_lines(lines, size, cur, cur_bytes).len(),
    ensures
        group_lines(lines, size, cur, cur_bytes)[i + 1].len() > 0,
        lines_cost(group_lines(lines, size, cur, cur_bytes)[i]) + line_cost(
            group_lines(lines, size, cur, cur_bytes)[i + 1][0],
        ) > size,
    decreases lines.len(),
{
    lemma_group_shape(lines, size, cur, cur_bytes);
    if lines.len() > 0 {
        let lb = line_cost(lines[0]);
        if cur_bytes + lb > size && cur.len() > 0 {
            let x = group_lines(lines.drop_first(), size, seq![lines[0]], lb);
            lemma_group_shape(lines.drop_first(), size, seq![lines[0]], lb);
            assert((seq![cur] + x)[i + 1] == x[i]);
            if i == 0 {
                assert((seq![cur] + x)[0] == cur);
                assert(x[0][0] == seq![lines[0]][0]);
            } else {
                assert((seq![cur] + x)[i] == x[i - 1]);
                lemma_cost_push(Seq::empty(), lines[0]);
                assert(Seq::<Seq<char>>::empty().push(lines[0]) =~= seq![lines[0]]);
                lemma_group_maximal(lines.drop_first(), size, seq![lines[0]], lb, i - 1);
            }
        } else {
            lemma_cost_push(cur, lines[0]);
            lemma_group_maximal(lines.drop_first(), size, cur.push(lines[0]), cur_bytes + lb, i);
        }
    }
}

/// Batches are as large as the size allows: every batch has a line, and a
/// new batch starts only when the next line would take the one before over
/// the size.
pub proof fn law_batches_are_maximal(lines: Seq<Seq<char>>, size: nat, i: int)
    requires
        0 <= i < group_lines(lines, size, Seq::empty(), 0).len(),
    ensures
        group_lines(lines, size, Seq::empty(), 0)[i].len() > 0,
        i + 1 < group_lines(lines, size, Seq::empty(), 0).len() ==> lines_cost(
            group_lines(lines, size, Seq::empty(), 0)[i],
        ) + line_cost(group_lines(lines, size, Seq::empty(), 0)[i + 1][0]) > size,
{
    lemma_group_shape(lines, size, Seq::empty(), 0);
    if i + 1 < group_lines(lines, size, Seq::empty(), 0).len() {
        lemma_group_maximal(lines, size, Seq::empty(), 0, i);
    }
}

proof fn lemma_group_fits(lines: Seq<Seq<char>>, size: nat, cur: Seq<Seq<char>>, cur_bytes: nat)
    requires
        cur_bytes + lines_cost(lines) <= size,
    ensures
        group_lines(lines, size, cur, cur_bytes).len() <= 1,
    decreases lines.len(),
{
    if lines.len() > 0 {
        let lb = line_cost(lines[0]);
        lemma_cost_first(lines);
        lemma_group_fits(lines.drop_first(), size, cur.push(lines[0]), cur_bytes + lb);
    }
}

/// Lines whose total cost fits in the size go out in one payload.
pub proof fn law_lines_that_fit_make_one_batch(lines: Seq<Seq<char>>, size: nat)
    requires
        lines.len() > 0,
        lines_cost(lines) <= size,
    ensures
        group_lines(lines, size, Seq::empty(), 0).len() == 1,
        group_lines(lines, size, Seq::empty(), 0)[0] == lines,
{
    lemma_group_fits(lines, size, Seq::empty(), 0);
    lemma_group_shape(lines, size, Seq::empty(), 0);
    law_batches_keep_every_line(lines, size);
    let g = group_lines(lines, size, Seq::empty(), 0);
    g.lemma_flatten_one_element();
}

/// The lines kept of a text made of two parts are those kept of each part:
/// a line is kept or dropped whatever lines surround it.
pub proof fn law_kept_lines_of_parts(a: Seq<Seq<char>>, b: Seq<Seq<char>>)
    ensures
        kept_lines(a + b) == kept_lines(a) + kept_lines(b),
    decreases b.len(),
{
    if b.len() == 0 {
        assert(a + b =~= a);
        assert(kept_lines(a) + kept_lines(b) =~= kept_lines(a));
    } else {
        law_kept_lines_of_parts(a, b.drop_last());
        assert((a + b).drop_last() =~= a + b.drop_last());
        assert((a + b).last() == b.last());
        assert((kept_lines(a) + kept_lines(b.drop_last())).push(b.last()) =~= kept_lines(a) + kept_lines(
            b.drop_last(),
        ).push(b.last()));
    }
}

/// A line alone is kept exactly when it holds more than blanks.
pub proof fn law_kept_line(l: Seq<char>)
    ensures
        trimmed(l).len() > 0 ==> kept_lines(seq![l]) == seq![l],
        trimmed(l).len() == 0 ==> kept_lines(seq![l]).len() == 0,
{
    assert(seq![l].drop_last() =~= Seq::<Seq<char>>::empty());
    assert(seq![l].last() == l);
    assert(kept_lines(Seq::<Seq<char>>::empty()) == Seq::<Seq<char>>::empty());
    assert(Seq::<Seq<char>>::empty().push(l) =~= seq![l]);
}

/// What a batch costs is the size of the payload it goes out as: its lines
/// joined by newlines, in UTF-8 bytes, and the newline that ends it.
pub proof fn law_batch_cost_is_payload_size(g: Seq<Seq<char>>)
    requires
        g.len() > 0,
    ensures
        lines_cost(g) == utf8_bytes(join(g, "\n"@)).len() + 1,
    decreases g.len(),
{
    if g.len() == 1 {
        assert(g.drop_last() =~= Seq::<Seq<char>>::empty());
        assert(lines_cost(Seq::<Seq<char>>::empty()) == 0);
        assert(lines_cost(g) == line_cost(g[0]));
        assert(join(g, "\n"@) == g[0]);
    } else {
        law_batch_cost_is_payload_size(g.drop_last());
        assert(lines_cost(g) == lines_cost(g.drop_last()) + line_cost(g.last()));
        assert(join(g, "\n"@) == join(g.drop_last(), "\n"@) + "\n"@ + g.last());
        reveal_strlit("\n");
        crate::text::lemma_utf8_concat(join(g.drop_last(), "\n"@), "\n"@);
        crate::text::lemma_utf8_concat(join(g.drop_last(), "\n"@) + "\n"@, g.last());
        let nl = "\n"@;
        assert(vstd::utf8::is_ascii_chars(nl));
        vstd::utf8::is_ascii_chars_encode_utf8(nl);
        assert(utf8_bytes(nl).len() == 1);
    }
}

} // verus!
