//! The VASP side of a generation: how many configurations were selected, the
//! species header of the mock OUTCAR written for each, and the Slurm array
//! script.
use vstd::prelude::*;
use crate::number::{parse_unsigned, parse_unsigned_result, parse_usize_chars, IntErrorKind};
use crate::template::{array_outcome, job_replacements, render, render_array_script, ArrayScriptError};
use crate::text::{
    append_chars, chars_of, lines, lines_chars, seqs_of, string_of, trim, trim_chars, words,
    words_chars,
};

verus! {

/// Prepares the DFT runs of a generation.
pub struct VaspWorkspace;

/// Why the configurations could not be counted.
#[derive(Debug, Clone, PartialEq, Eq)]
pub enum CountError {
    /// The counting script failed; its standard error, trimmed.
    CommandFailed(String),
    /// It printed no count.
    InvalidCount(IntErrorKind),
}

impl CountError {
    pub fn message(&self) -> (m: String)
        ensures
            m@ == (match self {
                CountError::CommandFailed(e) => "Failed to count configurations: "@ + e@,
                CountError::InvalidCount(k) => "Invalid integer count: "@ + (match k {
                    IntErrorKind::Empty => "cannot parse integer from empty string"@,
                    IntErrorKind::InvalidDigit => "invalid digit found in string"@,
                    IntErrorKind::PosOverflow => "number too large to fit in target type"@,
                }),
            }),
    {
        match self {
            CountError::CommandFailed(e) => {
                let mut m = String::from_str("Failed to count configurations: ");
                m.append(e.as_str());
                m
            },
            CountError::InvalidCount(k) => {
                let mut m = String::from_str("Invalid integer count: ");
                m.append(k.message());
                m
            },
        }
    }
}

/// The species header of a mock OUTCAR.
#[derive(Debug, Clone, PartialEq, Eq)]
pub struct OutcarSpecies {
    /// Two `POTCAR:` lines per species.
    pub potcar: String,
    /// One `VRHFIN =` line per species.
    pub vrhfin: String,
    /// ` ions per type =` and the count of each species.
    pub ions_per_type: String,
    /// The number of atoms.
    pub total_atoms: usize,
}

/// The element symbols (line 6) and counts (line 7) of a POSCAR, when there are
/// as many of each and at least one.
pub open spec fn poscar_species(poscar: Seq<char>) -> Option<(Seq<Seq<char>>, Seq<Seq<char>>)> {
    let ls = lines(poscar);
    if ls.len() >= 7 {
        let elements = words(ls[5]);
        let counts = words(ls[6]);
        if elements.len() == counts.len() && elements.len() > 0 {
            Some((elements, counts))
        } else {
            None
        }
    } else {
        None
    }
}

/// The count words of a POSCAR, when it has species.
pub open spec fn species_counts(poscar: Seq<char>) -> Seq<Seq<char>> {
    match poscar_species(poscar) {
        Some((e, c)) => c,
        None => Seq::empty(),
    }
}

/// A count as a number; one that does not parse counts as zero.
pub open spec fn count_value(c: Seq<char>) -> nat {
    match parse_unsigned(c, usize::MAX as nat) {
        Some(n) => n,
        None => 0,
    }
}

/// The sum of the counts.
pub open spec fn atoms_total(counts: Seq<Seq<char>>) -> nat
    decreases counts.len(),
{
    if counts.len() == 0 {
        0
    } else {
        atoms_total(counts.drop_last()) + count_value(counts.last())
    }
}

pub open spec fn vrhfin_line(element: Seq<char>) -> Seq<char> {
    "   VRHFIN ="@ + element + ":\n"@
}

pub open spec fn potcar_line(element: Seq<char>) -> Seq<char> {
    " POTCAR:    PAW_PBE "@ + element + " 01Jan2000\n"@
}

/// `format!("{:>w}", s)`: `s` padded with spaces on the left to `w` characters.
pub open spec fn pad_left(s: Seq<char>, w: nat) -> Seq<char> {
    if s.len() < w {
        Seq::new((w - s.len()) as nat, |i: int| ' ') + s
    } else {
        s
    }
}

pub open spec fn vrhfin_text(elements: Seq<Seq<char>>) -> Seq<char>
    decreases elements.len(),
{
    if elements.len() == 0 {
        Seq::empty()
    } else {
        vrhfin_text(elements.drop_last()) + vrhfin_line(elements.last())
    }
}

pub open spec fn potcar_text(elements: Seq<Seq<char>>) -> Seq<char>
    decreases elements.len(),
{
    if elements.len() == 0 {
        Seq::empty()
    } else {
        potcar_text(elements.drop_last()) + potcar_line(elements.last()) + potcar_line(
            elements.last(),
        )
    }
}

pub open spec fn ions_text(counts: Seq<Seq<char>>) -> Seq<char>
    decreases counts.len(),
{
    if counts.len() == 0 {
        " ions per type ="@
    } else {
        ions_text(counts.drop_last()) + seq![' '] + pad_left(counts.last(), 6)
    }
}

/// The header written when the POSCAR gives no atoms: 48 S and 96 Cu.
pub open spec fn fallback_species() -> (Seq<char>, Seq<char>, Seq<char>, nat) {
    (
        " POTCAR:    PAW_PBE S 01Jan2000\n"@ + " POTCAR:    PAW_PBE S 01Jan2000\n"@
            + " POTCAR:    PAW_PBE Cu 01Jan2000\n"@ + " POTCAR:    PAW_PBE Cu 01Jan2000\n"@,
        "   VRHFIN =S:\n"@ + "   VRHFIN =Cu:\n"@,
        " ions per type =     48     96"@,
        144,
    )
}

/// The header of a mock OUTCAR, from the POSCAR of the configuration.
pub open spec fn outcar_species_of(poscar: Seq<char>) -> (Seq<char>, Seq<char>, Seq<char>, nat) {
    match poscar_species(poscar) {
        Some((elements, counts)) => {
            if atoms_total(counts) > 0 {
                (potcar_text(elements), vrhfin_text(elements), ions_text(counts), atoms_total(counts))
            } else {
                fallback_species()
            }
        },
        None => fallback_species(),
    }
}

/// The atoms of a POSCAR can be counted in a `usize`.
pub open spec fn poscar_atoms_fit(poscar: Seq<char>) -> bool {
    poscar_species(poscar) matches Some((e, c)) ==> atoms_total(c) <= usize::MAX
}

proof fn lemma_atoms_total_prefix(counts: Seq<Seq<char>>, i: int)
    requires
        0 <= i <= counts.len(),
    ensures
        atoms_total(counts.take(i)) <= atoms_total(counts),
    decreases counts.len(),
{
    if i < counts.len() {
        lemma_atoms_total_prefix(counts.drop_last(), i);
        assert(counts.drop_last().take(i) =~= counts.take(i));
    } else {
        assert(counts.take(i) =~= counts);
    }
}

fn count_value_exec(c: &[char]) -> (n: usize)
    ensures
        n as nat == count_value(c@),
{
    proof {
        crate::number::lemma_parse_bounded(c@, usize::MAX as nat);
    }
    match parse_usize_chars(c) {
        Ok(n) => n,
        Err(_) => 0,
    }
}

/// The element words and count words of a POSCAR, when `poscar_species` has them.
fn species_words(poscar: &str) -> (r: Option<(Vec<Vec<char>>, Vec<Vec<char>>)>)
    ensures
        match poscar_species(poscar@) {
            Some((e, c)) => r matches Some((ev, cv)) && seqs_of(ev@) == e && seqs_of(cv@) == c,
            None => r is None,
        },
{
    let p = chars_of(poscar);
    let ls = lines_chars(p.as_slice());
    if ls.len() < 7 {
        return None;
    }
    assert(seqs_of(ls@)[5] == ls@[5]@ && seqs_of(ls@)[6] == ls@[6]@);
    let elements = words_chars(ls[5].as_slice());
    let counts = words_chars(ls[6].as_slice());
    if elements.len() == counts.len() && elements.len() > 0 {
        Some((elements, counts))
    } else {
        None
    }
}

impl VaspWorkspace {
    /// The number of configurations from the outcome of the counting script
    /// (`xyz_to_poscar.py count`): its standard output, trimmed, as a number.
    pub fn get_configuration_count(success: bool, stdout: &str, stderr: &str) -> (r: Result<
        usize,
        CountError,
    >)
        ensures
            !success ==> (r matches Err(CountError::CommandFailed(e)) && e@ == trim(stderr@)),
            success ==> match parse_unsigned_result(trim(stdout@), usize::MAX as nat) {
                Ok(n) => r == Ok::<usize, CountError>(n as usize),
                Err(k) => r == Err::<usize, CountError>(CountError::InvalidCount(k)),
            },
    {
        if !success {
            let e = chars_of(stderr);
            let t = trim_chars(e.as_slice());
            return Err(CountError::CommandFailed(string_of(t.as_slice())));
        }
        let o = chars_of(stdout);
        let t = trim_chars(o.as_slice());
        match parse_usize_chars(t.as_slice()) {
            Ok(n) => Ok(n),
            Err(k) => Err(CountError::InvalidCount(k)),
        }
    }

    /// The text of the VASP array script of a generation: one task per selected
    /// configuration, from the `vasp_array.sh.template` job template (`None`
    /// when it is missing).
    pub fn create_array_script(template: Option<&str>, generation: u32, count: usize) -> (r: Result<
        String,
        ArrayScriptError,
    >)
        ensures
            count == 0 ==> r == Err::<String, ArrayScriptError>(ArrayScriptError::NoTasks),
            count > 0 && template is None ==> r == Err::<String, ArrayScriptError>(
                ArrayScriptError::MissingTemplate,
            ),
            count > 0 && template is Some ==> array_outcome(r) == Some(
                render(template->0@, job_replacements(generation as nat, (count - 1) as nat)),
            ),
    {
        render_array_script(template, generation, count)
    }

    /// Whether the atoms of a POSCAR can be counted in a `usize`.
    pub fn poscar_atoms_fit(poscar: &str) -> (r: bool)
        ensures
            r == poscar_atoms_fit(poscar@),
    {
        match species_words(poscar) {
            None => true,
            Some((_, counts)) => {
                let ghost c = seqs_of(counts@);
                let mut acc: usize = 0;
                let mut i: usize = 0;
                assert(c.take(0) =~= Seq::<Seq<char>>::empty());
                while i < counts.len()
                    invariant
                        i <= counts@.len(),
                        c == seqs_of(counts@),
                        poscar_species(poscar@) is Some,
                        species_counts(poscar@) == c,
                        acc as nat == atoms_total(c.take(i as int)),
                    decreases counts@.len() - i,
                {
                    assert(c.take(i + 1).drop_last() =~= c.take(i as int));
                    assert(c[i as int] == counts@[i as int]@);
                    let n = count_value_exec(counts[i].as_slice());
                    assert(c.take(i + 1).last() == c[i as int]);
                    assert(atoms_total(c.take(i + 1)) == acc + n);
                    if n > usize::MAX - acc {
                        proof {
                            lemma_atoms_total_prefix(c, i + 1);
                        }
                        return false;
                    }
                    acc = acc + n;
                    i += 1;
                }
                assert(c.take(i as int) =~= c);
                true
            },
        }
    }

    /// The species header of the mock OUTCAR of a configuration, read from its
    /// POSCAR: per species a `VRHFIN` line, two `POTCAR` lines and a count; the
    /// 48 S / 96 Cu header when the POSCAR gives no atoms.
    pub fn outcar_species(poscar: &str) -> (r: OutcarSpecies)
        requires
            poscar_atoms_fit(poscar@),
        ensures
            (r.potcar@, r.vrhfin@, r.ions_per_type@, r.total_atoms as nat) == outcar_species_of(
                poscar@,
            ),
    {
        let fallback = OutcarSpecies {
            potcar: fallback_text_potcar(),
            vrhfin: fallback_text_vrhfin(),
            ions_per_type: " ions per type =     48     96".to_owned(),
            total_atoms: 144,
        };
        match species_words(poscar) {
            None => fallback,
            Some((elements, counts)) => {
                let ghost e = seqs_of(elements@);
                let ghost c = seqs_of(counts@);
                let mut potcar: Vec<char> = Vec::new();
                let mut vrhfin: Vec<char> = Vec::new();
                let mut ions: Vec<char> = chars_of(" ions per type =");
                let mut total: usize = 0;
                let head_v = chars_of("   VRHFIN =");
                let tail_v = chars_of(":\n");
                let head_p = chars_of(" POTCAR:    PAW_PBE ");
                let tail_p = chars_of(" 01Jan2000\n");
                let mut i: usize = 0;
                assert(e.take(0) =~= Seq::<Seq<char>>::empty());
                assert(c.take(0) =~= Seq::<Seq<char>>::empty());
                while i < elements.len()
                    invariant
                        i <= elements@.len(),
                        elements@.len() == counts@.len(),
                        e == seqs_of(elements@),
                        c == seqs_of(counts@),
                        atoms_total(c) <= usize::MAX,
                        head_v@ == "   VRHFIN ="@,
                        tail_v@ == ":\n"@,
                        head_p@ == " POTCAR:    PAW_PBE "@,
                        tail_p@ == " 01Jan2000\n"@,
                        potcar@ == potcar_text(e.take(i as int)),
                        vrhfin@ == vrhfin_text(e.take(i as int)),
                        ions@ == ions_text(c.take(i as int)),
                        total as nat == atoms_total(c.take(i as int)),
                    decreases elements@.len() - i,
                {
                    assert(e.take(i + 1).drop_last() =~= e.take(i as int));
                    assert(c.take(i + 1).drop_last() =~= c.take(i as int));
                    assert(e[i as int] == elements@[i as int]@);
                    assert(c[i as int] == counts@[i as int]@);
                    let el = elements[i].as_slice();
                    append_chars(&mut vrhfin, head_v.as_slice());
                    append_chars(&mut vrhfin, el);
                    append_chars(&mut vrhfin, tail_v.as_slice());
                    append_chars(&mut potcar, head_p.as_slice());
                    append_chars(&mut potcar, el);
                    append_chars(&mut potcar, tail_p.as_slice());
                    append_chars(&mut potcar, head_p.as_slice());
                    append_chars(&mut potcar, el);
                    append_chars(&mut potcar, tail_p.as_slice());
                    assert(vrhfin@ =~= vrhfin_text(e.take(i + 1)));
                    assert(potcar@ =~= potcar_text(e.take(i + 1)));
                    ions.push(' ');
                    let cnt = counts[i].as_slice();
                    let pad: usize = if cnt.len() < 6 {
                        6 - cnt.len()
                    } else {
                        0
                    };
                    let mut k: usize = 0;
                    assert(ions@ =~= ions_text(c.take(i as int)) + seq![' '] + Seq::new(
                        0,
                        |j: int| ' ',
                    ));
                    while k < pad
                        invariant
                            k <= pad,
                            ions@ == ions_text(c.take(i as int)) + seq![' '] + Seq::new(
                                k as nat,
                                |j: int| ' ',
                            ),
                        decreases pad - k,
                    {
                        ions.push(' ');
                        assert(ions@ =~= ions_text(c.take(i as int)) + seq![' '] + Seq::new(
                            (k + 1) as nat,
                            |j: int| ' ',
                        ));
                        k += 1;
                    }
                    append_chars(&mut ions, cnt);
                    assert(ions@ =~= ions_text(c.take(i + 1)));
                    let n = count_value_exec(cnt);
                    proof {
                        lemma_atoms_total_prefix(c, i + 1);
                    }
                    total = total + n;
                    i += 1;
                }
                assert(e.take(i as int) =~= e);
                assert(c.take(i as int) =~= c);
                if total == 0 {
                    fallback
                } else {
                    OutcarSpecies {
                        potcar: string_of(potcar.as_slice()),
                        vrhfin: string_of(vrhfin.as_slice()),
                        ions_per_type: string_of(ions.as_slice()),
                        total_atoms: total,
                    }
                }
            },
        }
    }
}

fn fallback_text_potcar() -> (s: String)
    ensures
        s@ == fallback_species().0,
{
    let mut s = String::from_str(" POTCAR:    PAW_PBE S 01Jan2000\n");
    s.append(" POTCAR:    PAW_PBE S 01Jan2000\n");
    s.append(" POTCAR:    PAW_PBE Cu 01Jan2000\n");
    s.append(" POTCAR:    PAW_PBE Cu 01Jan2000\n");
    s
}

fn fallback_text_vrhfin() -> (s: String)
    ensures
        s@ == fallback_species().1,
{
    let mut s = String::from_str("   VRHFIN =S:\n");
    s.append("   VRHFIN =Cu:\n");
    s
}

/// A POSCAR whose sixth line names k >= 1 species and whose seventh line gives
/// k counts adding up to n > 0 gets a header that lists exactly those species,
/// in order, and n atoms: one species as much as several.
pub proof fn law_outcar_species_follow_poscar(poscar: Seq<char>)
    requires
        lines(poscar).len() >= 7,
        words(lines(poscar)[5]).len() >= 1,
        words(lines(poscar)[5]).len() == words(lines(poscar)[6]).len(),
        atoms_total(words(lines(poscar)[6])) > 0,
    ensures
        outcar_species_of(poscar) == (
            potcar_text(words(lines(poscar)[5])),
            vrhfin_text(words(lines(poscar)[5])),
            ions_text(words(lines(poscar)[6])),
            atoms_total(words(lines(poscar)[6])),
        ),
{
}

/// A POSCAR of one species, `element`, with a positive `count`: two POTCAR lines
/// and one VRHFIN line of that element, one count, and that many atoms.
pub proof fn law_outcar_single_species(poscar: Seq<char>)
    requires
        lines(poscar).len() >= 7,
        words(lines(poscar)[5]).len() == 1,
        words(lines(poscar)[6]).len() == 1,
        count_value(words(lines(poscar)[6])[0]) > 0,
    ensures
        ({
            let element = words(lines(poscar)[5])[0];
            let count = words(lines(poscar)[6])[0];
            outcar_species_of(poscar) == (
                potcar_line(element) + potcar_line(element),
                vrhfin_line(element),
                " ions per type ="@ + seq![' '] + pad_left(count, 6),
                count_value(count),
            )
        }),
{
    let e = words(lines(poscar)[5]);
    let c = words(lines(poscar)[6]);
    assert(e.drop_last() =~= Seq::<Seq<char>>::empty());
    assert(c.drop_last() =~= Seq::<Seq<char>>::empty());
    assert(e.last() == e[0] && c.last() == c[0]);
    assert(potcar_text(e.drop_last()) == Seq::<char>::empty());
    assert(vrhfin_text(e.drop_last()) == Seq::<char>::empty());
    assert(ions_text(c.drop_last()) == " ions per type ="@);
    assert(Seq::<char>::empty() + potcar_line(e[0]) + potcar_line(e[0]) =~= potcar_line(e[0])
        + potcar_line(e[0]));
    assert(Seq::<char>::empty() + vrhfin_line(e[0]) =~= vrhfin_line(e[0]));
    assert(atoms_total(c.drop_last()) == 0);
    assert(atoms_total(c) == count_value(c[0]));
}

} // verus!
