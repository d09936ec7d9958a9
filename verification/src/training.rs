//! The text that committee training reads: the memory request of a Slurm
//! script, the memory estimate of an n2p2 scaling log, the rows of an n2p2
//! learning curve, and which weight files hold a selected epoch.
use vstd::prelude::*;
use crate::number::{parse_u32_chars, parse_unsigned_result, zero_padded, zero_padded_chars, IntErrorKind};
use crate::text::{
    append_chars, ascii_lowercase, ascii_lowercase_chars, chars_eq_str, chars_of, contains,
    ends_with, ends_with_chars, find, find_in, lines, lines_chars,
    number_end, seqs_of, slice_vec, split_chars, split_on, starts_with, starts_with_chars,
    strip_prefix, strip_prefix_str, string_of, strings_of, trim, trim_chars, words, words_chars,
    ascii_lower, flush, is_digit_or_dot, is_ws, words_from,
};

verus! {

/// Prepares the committee training of a generation.
pub struct TrainingWorkspace;

/// The unit of a Slurm memory amount.
#[derive(Debug, Clone, Copy, PartialEq, Eq, Structural)]
pub enum MemoryUnit {
    KiB,
    MiB,
    GiB,
    TiB,
}

/// The unit that a lower-cased suffix names; none is MiB.
pub open spec fn unit_of(u: Seq<char>) -> Option<MemoryUnit> {
    if u == ""@ || u == "m"@ || u == "mb"@ || u == "mib"@ {
        Some(MemoryUnit::MiB)
    } else if u == "k"@ || u == "kb"@ || u == "kib"@ {
        Some(MemoryUnit::KiB)
    } else if u == "g"@ || u == "gb"@ || u == "gib"@ {
        Some(MemoryUnit::GiB)
    } else if u == "t"@ || u == "tb"@ || u == "tib"@ {
        Some(MemoryUnit::TiB)
    } else {
        None
    }
}

/// The value of the first `#SBATCH --mem=` or `#SBATCH --mem ` line, trimmed.
pub open spec fn memory_request(ls: Seq<Seq<char>>) -> Option<Seq<char>>
    decreases ls.len(),
{
    if ls.len() == 0 {
        None
    } else {
        let t = trim(ls[0]);
        if !starts_with(t, "#SBATCH"@) {
            memory_request(ls.drop_first())
        } else if strip_prefix(t, "#SBATCH --mem="@) is Some {
            Some(trim(strip_prefix(t, "#SBATCH --mem="@)->0))
        } else if strip_prefix(t, "#SBATCH --mem "@) is Some {
            Some(trim(strip_prefix(t, "#SBATCH --mem "@)->0))
        } else {
            memory_request(ls.drop_first())
        }
    }
}

/// A memory amount split into its number text and its unit: the first word,
/// the number being its leading digits and dots.
pub open spec fn memory_value_parts(value: Seq<char>) -> Option<(Seq<char>, MemoryUnit)> {
    let ws = words(value);
    if ws.len() == 0 {
        None
    } else {
        let token = ws[0];
        let k = number_end(token);
        match unit_of(ascii_lowercase(token.skip(k as int))) {
            Some(u) => Some((token.take(k as int), u)),
            None => None,
        }
    }
}

/// The lines that hold `marker`, in order.
pub open spec fn lines_holding(ls: Seq<Seq<char>>, marker: Seq<char>) -> Seq<Seq<char>>
    decreases ls.len(),
{
    if ls.len() == 0 {
        Seq::empty()
    } else {
        let r = lines_holding(ls.drop_last(), marker);
        if contains(ls.last(), marker) {
            r.push(ls.last())
        } else {
            r
        }
    }
}

/// The last word between the first `(` of a line and the first `MiB` after it.
pub open spec fn parenthesized_mib(line: Seq<char>) -> Option<Seq<char>> {
    match find(line, seq!['(']) {
        None => None,
        Some(open) => {
            let rest = line.skip(open + 1);
            match find(rest, "MiB"@) {
                None => None,
                Some(close) => {
                    let ws = words(rest.take(close));
                    if ws.len() == 0 {
                        None
                    } else {
                        Some(ws.last())
                    }
                },
            }
        },
    }
}

/// The text of a line before the first `marker` (all of it when there is none).
pub open spec fn before_marker(line: Seq<char>, marker: Seq<char>) -> Seq<char> {
    match find(line, marker) {
        Some(i) => line.take(i),
        None => line,
    }
}

/// A data row of an n2p2 learning curve: its epoch (column 1) as read, and the
/// text of its test-force RMSE (column 11).
#[derive(Debug)]
pub struct LearningCurveRow {
    pub epoch: Result<u32, IntErrorKind>,
    pub rmse_text: String,
}

/// Whether a line is a data row: not blank, not a comment, at least 11 columns.
pub open spec fn is_data_row(line: Seq<char>) -> bool {
    let t = trim(line);
    t.len() > 0 && t[0] != '#' && words(t).len() >= 11
}

/// The data rows of a learning curve, as (epoch read as `u32`, RMSE text).
pub open spec fn learning_curve_rows_of(ls: Seq<Seq<char>>) -> Seq<
    (Result<nat, IntErrorKind>, Seq<char>),
>
    decreases ls.len(),
{
    if ls.len() == 0 {
        Seq::empty()
    } else {
        let r = learning_curve_rows_of(ls.drop_last());
        let line = ls.last();
        if is_data_row(line) {
            let cols = words(trim(line));
            r.push((parse_unsigned_result(cols[0], u32::MAX as nat), cols[10]))
        } else {
            r
        }
    }
}

/// A row as numbers and characters.
pub open spec fn row_view(r: LearningCurveRow) -> (Result<nat, IntErrorKind>, Seq<char>) {
    (
        match r.epoch {
            Ok(n) => Ok(n as nat),
            Err(k) => Err(k),
        },
        r.rmse_text@,
    )
}

/// `.<epoch:06>.out`.
pub open spec fn epoch_suffix(epoch: nat) -> Seq<char> {
    "."@ + zero_padded(epoch, 6) + ".out"@
}

/// For a weight file of the selected epoch, `weights.<Z>.<epoch:06>.out`, the
/// name it is copied to: `weights.<Z>.data`.
pub open spec fn selected_weights_name(file_name: Seq<char>, epoch: nat) -> Option<Seq<char>> {
    if !starts_with(file_name, "weights."@) || !ends_with(file_name, epoch_suffix(epoch)) {
        None
    } else {
        let parts = split_on(file_name, '.');
        if parts.len() < 2 {
            None
        } else {
            Some("weights."@ + parts[1] + ".data"@)
        }
    }
}

impl TrainingWorkspace {
    /// The memory request of a Slurm script: the value of its first
    /// `#SBATCH --mem=` or `#SBATCH --mem ` line.
    pub fn find_slurm_memory_request(script: &str) -> (r: Option<String>)
        ensures
            match memory_request(lines(script@)) {
                Some(v) => r matches Some(s) && s@ == v,
                None => r is None,
            },
    {
        let all = chars_of(script);
        let ls = lines_chars(all.as_slice());
        let ghost lv = seqs_of(ls@);
        let sbatch = chars_of("#SBATCH");
        let mut i: usize = 0;
        assert(lv.skip(0) =~= lv);
        while i < ls.len()
            invariant
                i <= ls@.len(),
                lv == seqs_of(ls@),
                lv == lines(script@),
                sbatch@ == "#SBATCH"@,
                memory_request(lv) == memory_request(lv.skip(i as int)),
            decreases ls@.len() - i,
        {
            assert(lv.skip(i as int).drop_first() =~= lv.skip(i + 1));
            assert(lv.skip(i as int)[0] == ls@[i as int]@);
            let t = trim_chars(ls[i].as_slice());
            if starts_with_chars(t.as_slice(), sbatch.as_slice()) {
                match strip_prefix_str(t.as_slice(), "#SBATCH --mem=") {
                    Some(v) => {
                        let value = trim_chars(v.as_slice());
                        return Some(string_of(value.as_slice()));
                    },
                    None => {},
                }
                match strip_prefix_str(t.as_slice(), "#SBATCH --mem ") {
                    Some(v) => {
                        let value = trim_chars(v.as_slice());
                        return Some(string_of(value.as_slice()));
                    },
                    None => {},
                }
            }
            i += 1;
        }
        assert(lv.skip(i as int) =~= Seq::<Seq<char>>::empty());
        None
    }

    /// A Slurm memory amount such as `4G` or `2500mb`: the number text and the unit.
    pub fn split_memory_value(value: &str) -> (r: Option<(String, MemoryUnit)>)
        ensures
            match memory_value_parts(value@) {
                Some((n, u)) => r matches Some((s, v)) && s@ == n && v == u,
                None => r is None,
            },
    {
        let all = chars_of(value);
        let ws = words_chars(all.as_slice());
        if ws.len() == 0 {
            return None;
        }
        assert(seqs_of(ws@)[0] == ws@[0]@);
        let token = ws[0].as_slice();
        let mut k: usize = 0;
        assert(token@.skip(0) =~= token@);
        while k < token.len() && (('0' <= token[k] && token[k] <= '9') || token[k] == '.')
            invariant
                k <= token@.len(),
                number_end(token@) == k + number_end(token@.skip(k as int)),
            decreases token@.len() - k,
        {
            assert(token@.skip(k as int).drop_first() =~= token@.skip(k + 1));
            k += 1;
        }
        assert(number_end(token@.skip(k as int)) == 0);
        let unit_text = slice_vec(token, k, token.len());
        assert(unit_text@ =~= token@.skip(k as int));
        let unit = ascii_lowercase_chars(unit_text.as_slice());
        let u = unit.as_slice();
        let number = string_of(slice_vec(token, 0, k).as_slice());
        assert(token@.subrange(0, k as int) =~= token@.take(k as int));
        if chars_eq_str(u, "") || chars_eq_str(u, "m") || chars_eq_str(u, "mb") || chars_eq_str(
            u,
            "mib",
        ) {
            Some((number, MemoryUnit::MiB))
        } else if chars_eq_str(u, "k") || chars_eq_str(u, "kb") || chars_eq_str(u, "kib") {
            Some((number, MemoryUnit::KiB))
        } else if chars_eq_str(u, "g") || chars_eq_str(u, "gb") || chars_eq_str(u, "gib") {
            Some((number, MemoryUnit::GiB))
        } else if chars_eq_str(u, "t") || chars_eq_str(u, "tb") || chars_eq_str(u, "tib") {
            Some((number, MemoryUnit::TiB))
        } else {
            None
        }
    }

    /// The lines of an n2p2 scaling log that hold `Memory for all structures`.
    pub fn memory_estimate_lines(log: &str) -> (r: Vec<String>)
        ensures
            r.deep_view() == lines_holding(lines(log@), "Memory for all structures"@),
    {
        let all = chars_of(log);
        let ls = lines_chars(all.as_slice());
        let ghost lv = seqs_of(ls@);
        let marker = chars_of("Memory for all structures");
        let mut out: Vec<Vec<char>> = Vec::new();
        let mut i: usize = 0;
        assert(lv.take(0) =~= Seq::<Seq<char>>::empty());
        while i < ls.len()
            invariant
                i <= ls@.len(),
                lv == seqs_of(ls@),
                marker@ == "Memory for all structures"@,
                seqs_of(out@) == lines_holding(lv.take(i as int), marker@),
            decreases ls@.len() - i,
        {
            assert(lv.take(i + 1).drop_last() =~= lv.take(i as int));
            assert(lv.take(i + 1).last() == ls@[i as int]@);
            if crate::text::contains_chars(ls[i].as_slice(), marker.as_slice()) {
                let ghost before = seqs_of(out@);
                let line = slice_vec(ls[i].as_slice(), 0, ls[i].len());
                assert(line@ =~= ls@[i as int]@);
                out.push(line);
                assert(seqs_of(out@) =~= before.push(ls@[i as int]@));
            }
            i += 1;
        }
        assert(lv.take(i as int) =~= lv);
        strings_of(&out)
    }

    /// The MiB figure of an n2p2 memory line: the last word between its first
    /// `(` and the first `MiB` after that.
    #[verifier::rlimit(40)]
    pub fn parenthesized_mib_text(line: &str) -> (r: Option<String>)
        ensures
            match parenthesized_mib(line@) {
                Some(w) => r matches Some(s) && s@ == w,
                None => r is None,
            },
    {
        let l = chars_of(line);
        let mut paren: Vec<char> = Vec::new();
        paren.push('(');
        assert(paren@ =~= seq!['(']);
        let found = find_in(l.as_slice(), paren.as_slice());
        if found.is_none() {
            return None;
        }
        let open = found.unwrap();
        assert(open < l@.len());
        assert(l@.len() == l.len());
        let rest = slice_vec(l.as_slice(), open + 1, l.len());
        assert(rest@ =~= l@.skip(open + 1));
        let mib = chars_of("MiB");
        let found_close = find_in(rest.as_slice(), mib.as_slice());
        if found_close.is_none() {
            return None;
        }
        let close = found_close.unwrap();
        assert(close <= rest@.len());
        let inner = slice_vec(rest.as_slice(), 0, close);
        assert(inner@ =~= rest@.take(close as int));
        let ws = words_chars(inner.as_slice());
        if ws.len() == 0 {
            return None;
        }
        let last = ws.len() - 1;
        assert(seqs_of(ws@)[last as int] == ws@[last as int]@);
        Some(string_of(ws[last].as_slice()))
    }

    /// The words of a line before the first `marker`.
    pub fn words_before(line: &str, marker: &str) -> (r: Vec<String>)
        ensures
            r.deep_view() == words(before_marker(line@, marker@)),
    {
        let l = chars_of(line);
        let m = chars_of(marker);
        let head = match find_in(l.as_slice(), m.as_slice()) {
            Some(i) => {
                let h = slice_vec(l.as_slice(), 0, i);
                assert(h@ =~= l@.take(i as int));
                h
            },
            None => l,
        };
        let ws = words_chars(head.as_slice());
        strings_of(&ws)
    }

    /// The data rows of an n2p2 learning curve, in order.
    pub fn learning_curve_rows(text: &str) -> (r: Vec<LearningCurveRow>)
        ensures
            r@.map_values(|x: LearningCurveRow| row_view(x)) == learning_curve_rows_of(lines(text@)),
    {
        let all = chars_of(text);
        let ls = lines_chars(all.as_slice());
        let ghost lv = seqs_of(ls@);
        let mut out: Vec<LearningCurveRow> = Vec::new();
        let mut i: usize = 0;
        assert(lv.take(0) =~= Seq::<Seq<char>>::empty());
        assert(out@.map_values(|x: LearningCurveRow| row_view(x)) =~= Seq::<
            (Result<nat, IntErrorKind>, Seq<char>),
        >::empty());
        while i < ls.len()
            invariant
                i <= ls@.len(),
                lv == seqs_of(ls@),
                lv == lines(text@),
                out@.map_values(|x: LearningCurveRow| row_view(x)) == learning_curve_rows_of(
                    lv.take(i as int),
                ),
            decreases ls@.len() - i,
        {
            assert(lv.take(i + 1).drop_last() =~= lv.take(i as int));
            assert(lv.take(i + 1).last() == ls@[i as int]@);
            let t = trim_chars(ls[i].as_slice());
            if t.len() > 0 && t[0] != '#' {
                let cols = words_chars(t.as_slice());
                if cols.len() >= 11 {
                    assert(seqs_of(cols@)[0] == cols@[0]@ && seqs_of(cols@)[10] == cols@[10]@);
                    proof {
                        crate::number::lemma_parse_bounded(cols@[0]@, u32::MAX as nat);
                    }
                    let row = LearningCurveRow {
                        epoch: parse_u32_chars(cols[0].as_slice()),
                        rmse_text: string_of(cols[10].as_slice()),
                    };
                    let ghost before = out@.map_values(|x: LearningCurveRow| row_view(x));
                    out.push(row);
                    assert(out@.map_values(|x: LearningCurveRow| row_view(x)) =~= before.push(
                        row_view(row),
                    ));
                }
            }
            i += 1;
        }
        assert(lv.take(i as int) =~= lv);
        out
    }

    /// `weights.<Z:03>.<epoch:06>.out`: the weights of element `Z` after an epoch.
    pub fn epoch_weights_name(atomic_number: u32, epoch: u32) -> (s: String)
        ensures
            s@ == "weights."@ + zero_padded(atomic_number as nat, 3) + epoch_suffix(epoch as nat),
    {
        let mut v = chars_of("weights.");
        let z = zero_padded_chars(atomic_number as u64, 3);
        append_chars(&mut v, z.as_slice());
        let dot = chars_of(".");
        append_chars(&mut v, dot.as_slice());
        let e = zero_padded_chars(epoch as u64, 6);
        append_chars(&mut v, e.as_slice());
        let out = chars_of(".out");
        append_chars(&mut v, out.as_slice());
        let ghost pre = "weights."@ + zero_padded(atomic_number as nat, 3);
        assert(v@ =~= pre + epoch_suffix(epoch as nat));
        string_of(v.as_slice())
    }

    /// The name under which a weight file of the selected epoch is kept, or
    /// `None` when the file holds another epoch or no weights.
    pub fn selected_weights_target(file_name: &str, best_epoch: u32) -> (r: Option<String>)
        ensures
            match selected_weights_name(file_name@, best_epoch as nat) {
                Some(n) => r matches Some(s) && s@ == n,
                None => r is None,
            },
    {
        let name = chars_of(file_name);
        let prefix = chars_of("weights.");
        let mut suffix = chars_of(".");
        let digits = zero_padded_chars(best_epoch as u64, 6);
        append_chars(&mut suffix, digits.as_slice());
        let out = chars_of(".out");
        append_chars(&mut suffix, out.as_slice());
        assert(suffix@ == epoch_suffix(best_epoch as nat));
        if !starts_with_chars(name.as_slice(), prefix.as_slice()) || !ends_with_chars(
            name.as_slice(),
            suffix.as_slice(),
        ) {
            return None;
        }
        let parts = split_chars(name.as_slice(), '.');
        if parts.len() < 2 {
            return None;
        }
        assert(seqs_of(parts@)[1] == parts@[1]@);
        let mut target = chars_of("weights.");
        append_chars(&mut target, parts[1].as_slice());
        let data = chars_of(".data");
        append_chars(&mut target, data.as_slice());
        Some(string_of(target.as_slice()))
    }
}

/// Selecting an epoch keeps the weights that training wrote for it, under
/// `weights.<Z:03>.data`.
pub proof fn law_selected_epoch_weights_kept(atomic_number: nat, epoch: nat)
    ensures
        selected_weights_name(
            "weights."@ + zero_padded(atomic_number, 3) + epoch_suffix(epoch),
            epoch,
        ) == Some("weights."@ + zero_padded(atomic_number, 3) + ".data"@),
{
    reveal_strlit("weights.");
    reveal_strlit(".");
    let z = zero_padded(atomic_number, 3);
    let suffix = epoch_suffix(epoch);
    let w = seq!['w', 'e', 'i', 'g', 'h', 't', 's'];
    assert("weights."@ =~= w + seq!['.']);
    let name = "weights."@ + z + suffix;
    assert(name.take(8) =~= "weights."@);
    assert(name.skip(name.len() - suffix.len()) =~= suffix);
    crate::number::lemma_zero_padded_digits(atomic_number, 3);
    assert(forall|i: int| 0 <= i < w.len() ==> w[i] != '.');
    assert(forall|i: int| 0 <= i < z.len() ==> z[i] != '.');
    assert(suffix[0] == '.');
    let b = seq!['.'] + z + suffix;
    assert(name =~= w + b);
    crate::text::lemma_split_from_concat(w, b, '.', Seq::empty());
    assert(Seq::<char>::empty() + w =~= w);
    assert(b[0] == '.');
    assert(b.drop_first() =~= z + suffix);
    crate::text::lemma_split_from_concat(z, suffix, '.', Seq::empty());
    assert(Seq::<char>::empty() + z =~= z);
    crate::text::lemma_split_from_nonempty(suffix.drop_first(), '.', Seq::empty());
    assert(split_on(name, '.')[1] == z);
}

/// A line whose trimmed text starts with `#` is a comment: it adds no row,
/// however many columns it has.
pub proof fn law_comment_line_adds_no_row(ls: Seq<Seq<char>>, line: Seq<char>)
    requires
        trim(line).len() > 0,
        trim(line)[0] == '#',
    ensures
        learning_curve_rows_of(ls.push(line)) == learning_curve_rows_of(ls),
{
    assert(ls.push(line).drop_last() =~= ls);
}

/// A line that is blank or has fewer than 11 columns adds no row.
pub proof fn law_short_line_adds_no_row(ls: Seq<Seq<char>>, line: Seq<char>)
    requires
        words(trim(line)).len() < 11 || trim(line).len() == 0,
    ensures
        learning_curve_rows_of(ls.push(line)) == learning_curve_rows_of(ls),
{
    assert(ls.push(line).drop_last() =~= ls);
}

/// A line that is no comment and has at least 11 columns adds one row, after
/// those of the lines before it: its first column read as a `u32` epoch and
/// its eleventh column.
pub proof fn law_data_line_adds_its_row(ls: Seq<Seq<char>>, line: Seq<char>)
    requires
        trim(line).len() > 0,
        trim(line)[0] != '#',
        words(trim(line)).len() >= 11,
    ensures
        learning_curve_rows_of(ls.push(line)) == learning_curve_rows_of(ls).push(
            (
                parse_unsigned_result(words(trim(line))[0], u32::MAX as nat),
                words(trim(line))[10],
            ),
        ),
{
    assert(ls.push(line).drop_last() =~= ls);
}

/// `s` is made of ASCII letters, of either case.
spec fn ascii_letters(s: Seq<char>) -> bool {
    forall|i: int| 0 <= i < s.len() ==> 'a' <= #[trigger] ascii_lower(s[i]) && ascii_lower(s[i]) <= 'z'
}

/// `d` is made of ASCII digits.
pub open spec fn ascii_digits(d: Seq<char>) -> bool {
    forall|i: int| 0 <= i < d.len() ==> '0' <= d[i] && d[i] <= '9'
}

proof fn lemma_words_of_word(x: Seq<char>, cur: Seq<char>)
    requires
        forall|i: int| 0 <= i < x.len() ==> !is_ws(#[trigger] x[i]),
    ensures
        words_from(x, cur) == flush(cur + x),
    decreases x.len(),
{
    if x.len() == 0 {
        assert(cur + x =~= cur);
    } else {
        assert(!is_ws(x[0]));
        lemma_words_of_word(x.drop_first(), cur.push(x[0]));
        assert(cur.push(x[0]) + x.drop_first() =~= cur + x);
    }
}

proof fn lemma_number_end_of_digits(d: Seq<char>, t: Seq<char>)
    requires
        ascii_digits(d),
        t.len() == 0 || !is_digit_or_dot(t[0]),
    ensures
        number_end(d + t) == d.len(),
    decreases d.len(),
{
    if d.len() == 0 {
        assert(d + t =~= t);
    } else {
        assert((d + t)[0] == d[0]);
        assert((d + t).drop_first() =~= d.drop_first() + t);
        lemma_number_end_of_digits(d.drop_first(), t);
    }
}

/// A number of ASCII digits followed by a suffix of ASCII letters is read as
/// that number and the unit that the lower-cased suffix names.
proof fn lemma_memory_value_of_digits_and_letters(d: Seq<char>, s: Seq<char>)
    requires
        ascii_digits(d),
        ascii_letters(s),
        d.len() + s.len() > 0,
    ensures
        memory_value_parts(d + s) == (match unit_of(ascii_lowercase(s)) {
            Some(u) => Some((d, u)),
            None => None::<(Seq<char>, MemoryUnit)>,
        }),
{
    let v = d + s;
    assert forall|i: int| 0 <= i < v.len() implies !is_ws(#[trigger] v[i]) && !is_digit_or_dot(v[i]) || i < d.len() by {
        if i >= d.len() {
            assert(v[i] == s[i - d.len()]);
            assert('a' <= ascii_lower(s[i - d.len()]) && ascii_lower(s[i - d.len()]) <= 'z');
        }
    }
    assert forall|i: int| 0 <= i < v.len() implies !is_ws(#[trigger] v[i]) by {
        if i < d.len() {
            assert(v[i] == d[i]);
        }
    }
    lemma_words_of_word(v, Seq::empty());
    assert(Seq::<char>::empty() + v =~= v);
    assert(words(v) == seq![v]);
    if s.len() > 0 {
        assert(s[0] == v[d.len() as int]);
    }
    lemma_number_end_of_digits(d, s);
    assert(v.take(d.len() as int) =~= d);
    assert(v.skip(d.len() as int) =~= s);
}

proof fn lemma_unit_suffix_literals()
    ensures
        ""@ == Seq::<char>::empty(),
        "m"@ == seq!['m'],
        "mb"@ == seq!['m', 'b'],
        "mib"@ == seq!['m', 'i', 'b'],
        "k"@ == seq!['k'],
        "kb"@ == seq!['k', 'b'],
        "kib"@ == seq!['k', 'i', 'b'],
        "g"@ == seq!['g'],
        "gb"@ == seq!['g', 'b'],
        "gib"@ == seq!['g', 'i', 'b'],
        "t"@ == seq!['t'],
        "tb"@ == seq!['t', 'b'],
        "tib"@ == seq!['t', 'i', 'b'],
        "m"@[0] == 'm' && "mb"@[0] == 'm' && "mib"@[0] == 'm',
        "k"@[0] == 'k' && "kb"@[0] == 'k' && "kib"@[0] == 'k',
        "g"@[0] == 'g' && "gb"@[0] == 'g' && "gib"@[0] == 'g',
{
    reveal_strlit("");
    reveal_strlit("m");
    reveal_strlit("mb");
    reveal_strlit("mib");
    reveal_strlit("k");
    reveal_strlit("kb");
    reveal_strlit("kib");
    reveal_strlit("g");
    reveal_strlit("gb");
    reveal_strlit("gib");
    reveal_strlit("t");
    reveal_strlit("tb");
    reveal_strlit("tib");
    assert(""@ =~= Seq::<char>::empty());
    assert("m"@ =~= seq!['m']);
    assert("mb"@ =~= seq!['m', 'b']);
    assert("mib"@ =~= seq!['m', 'i', 'b']);
    assert("k"@ =~= seq!['k']);
    assert("kb"@ =~= seq!['k', 'b']);
    assert("kib"@ =~= seq!['k', 'i', 'b']);
    assert("g"@ =~= seq!['g']);
    assert("gb"@ =~= seq!['g', 'b']);
    assert("gib"@ =~= seq!['g', 'i', 'b']);
    assert("t"@ =~= seq!['t']);
    assert("tb"@ =~= seq!['t', 'b']);
    assert("tib"@ =~= seq!['t', 'i', 'b']);
}

/// A Slurm memory amount of digits followed by `M`, `MB` or `MiB`, in any
/// case, or by nothing, is that many MiB.
pub proof fn law_memory_suffix_mib(d: Seq<char>, s: Seq<char>)
    requires
        ascii_digits(d),
        ascii_lowercase(s) == seq!['m'] || ascii_lowercase(s) == seq!['m', 'b'] || ascii_lowercase(s)
            == seq!['m', 'i', 'b'] || (s.len() == 0 && d.len() > 0),
    ensures
        memory_value_parts(d + s) == Some((d, MemoryUnit::MiB)),
{
    assert(ascii_lowercase(s).len() == s.len());
    assert(ascii_letters(s)) by {
        assert forall|i: int| 0 <= i < s.len() implies 'a' <= #[trigger] ascii_lower(s[i]) && ascii_lower(s[i]) <= 'z' by {
            assert(ascii_lowercase(s)[i] == ascii_lower(s[i]));
            if i == 0 {
            } else if i == 1 {
            } else {
                assert(i == 2);
            }
        }
    }
    lemma_memory_value_of_digits_and_letters(d, s);
    lemma_unit_suffix_literals();
    if s.len() == 0 {
        assert(ascii_lowercase(s) =~= ""@);
    }
    assert(unit_of(ascii_lowercase(s)) == Some(MemoryUnit::MiB));
}

/// A Slurm memory amount of digits followed by `K`, `KB` or `KiB`, in any
/// case, is that many KiB.
pub proof fn law_memory_suffix_kib(d: Seq<char>, s: Seq<char>)
    requires
        ascii_digits(d),
        ascii_lowercase(s) == seq!['k'] || ascii_lowercase(s) == seq!['k', 'b'] || ascii_lowercase(s)
            == seq!['k', 'i', 'b'],
    ensures
        memory_value_parts(d + s) == Some((d, MemoryUnit::KiB)),
{
    assert(ascii_lowercase(s).len() == s.len());
    assert(ascii_letters(s)) by {
        assert forall|i: int| 0 <= i < s.len() implies 'a' <= #[trigger] ascii_lower(s[i]) && ascii_lower(s[i]) <= 'z' by {
            assert(ascii_lowercase(s)[i] == ascii_lower(s[i]));
            if i == 0 {
            } else if i == 1 {
            } else {
                assert(i == 2);
            }
        }
    }
    lemma_memory_value_of_digits_and_letters(d, s);
    lemma_unit_suffix_literals();
    assert(ascii_lowercase(s)[0] == 'k');
    assert(unit_of(ascii_lowercase(s)) == Some(MemoryUnit::KiB));
}

/// A Slurm memory amount of digits followed by `G`, `GB` or `GiB`, in any
/// case, is that many GiB.
pub proof fn law_memory_suffix_gib(d: Seq<char>, s: Seq<char>)
    requires
        ascii_digits(d),
        ascii_lowercase(s) == seq!['g'] || ascii_lowercase(s) == seq!['g', 'b'] || ascii_lowercase(s)
            == seq!['g', 'i', 'b'],
    ensures
        memory_value_parts(d + s) == Some((d, MemoryUnit::GiB)),
{
    assert(ascii_lowercase(s).len() == s.len());
    assert(ascii_letters(s)) by {
        assert forall|i: int| 0 <= i < s.len() implies 'a' <= #[trigger] ascii_lower(s[i]) && ascii_lower(s[i]) <= 'z' by {
            assert(ascii_lowercase(s)[i] == ascii_lower(s[i]));
            if i == 0 {
            } else if i == 1 {
            } else {
                assert(i == 2);
            }
        }
    }
    lemma_memory_value_of_digits_and_letters(d, s);
    lemma_unit_suffix_literals();
    assert(ascii_lowercase(s)[0] == 'g');
    assert(unit_of(ascii_lowercase(s)) == Some(MemoryUnit::GiB));
}

/// A Slurm memory amount of digits followed by `T`, `TB` or `TiB`, in any
/// case, is that many TiB.
pub proof fn law_memory_suffix_tib(d: Seq<char>, s: Seq<char>)
    requires
        ascii_digits(d),
        ascii_lowercase(s) == seq!['t'] || ascii_lowercase(s) == seq!['t', 'b'] || ascii_lowercase(s)
            == seq!['t', 'i', 'b'],
    ensures
        memory_value_parts(d + s) == Some((d, MemoryUnit::TiB)),
{
    assert(ascii_lowercase(s).len() == s.len());
    assert(ascii_letters(s)) by {
        assert forall|i: int| 0 <= i < s.len() implies 'a' <= #[trigger] ascii_lower(s[i]) && ascii_lower(s[i]) <= 'z' by {
            assert(ascii_lowercase(s)[i] == ascii_lower(s[i]));
            if i == 0 {
            } else if i == 1 {
            } else {
                assert(i == 2);
            }
        }
    }
    lemma_memory_value_of_digits_and_letters(d, s);
    lemma_unit_suffix_literals();
    assert(ascii_lowercase(s)[0] == 't');
    assert(unit_of(ascii_lowercase(s)) == Some(MemoryUnit::TiB));
}

} // verus!
