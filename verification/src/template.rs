//! Rendering of user-provided templates: each replacement key `k` fills every
//! `{{k}}`; a key whose placeholder is absent, or any brace pair left over,
//! is an error.
use vstd::prelude::*;
use crate::number::{decimal, decimal_chars};
use crate::text::{
    chars_of, contains, contains_chars, contains_str, occurs_at, replace_all, replace_chars,
    starts_with, string_of,
};

verus! {

/// Why a template could not be rendered.
#[derive(Debug, Clone, PartialEq, Eq)]
pub enum TemplateError {
    /// The template lacks this placeholder (braces included) of a replacement key.
    MissingPlaceholder(String),
    /// After all replacements, `{{` or `}}` is still in the text.
    UnknownPlaceholder,
}

impl TemplateError {
    /// The error's message; `template` names the template.
    pub fn message(&self, template: &str) -> (m: String)
        ensures
            m@ == "Template "@ + template@ + (match self {
                TemplateError::MissingPlaceholder(p) => " is missing required placeholder "@ + p@,
                TemplateError::UnknownPlaceholder => " contains an unknown or malformed placeholder"@,
            }),
    {
        let mut m = String::from_str("Template ");
        m.append(template);
        match self {
            TemplateError::MissingPlaceholder(p) => {
                let ghost before = m@;
                m.append(" is missing required placeholder ");
                m.append(p.as_str());
                assert(m@ =~= before + (" is missing required placeholder "@ + p@));
            },
            TemplateError::UnknownPlaceholder => {
                m.append(" contains an unknown or malformed placeholder");
            },
        }
        m
    }
}

/// What rendering comes to, over character sequences.
pub enum RenderOutcome {
    Rendered(Seq<char>),
    Missing(Seq<char>),
    Unknown,
}

/// `{{key}}`.
pub open spec fn placeholder(key: Seq<char>) -> Seq<char> {
    seq!['{', '{'] + key + seq!['}', '}']
}

/// The replacements applied in order, each requiring its placeholder to be present.
pub open spec fn apply_replacements(
    template: Seq<char>,
    reps: Seq<(Seq<char>, Seq<char>)>,
) -> RenderOutcome
    decreases reps.len(),
{
    if reps.len() == 0 {
        RenderOutcome::Rendered(template)
    } else {
        match apply_replacements(template, reps.drop_last()) {
            RenderOutcome::Rendered(cur) => {
                let ph = placeholder(reps.last().0);
                if contains(cur, ph) {
                    RenderOutcome::Rendered(replace_all(cur, ph, reps.last().1))
                } else {
                    RenderOutcome::Missing(ph)
                }
            },
            other => other,
        }
    }
}

/// Rendering: the replacements, then the check that no `{{` or `}}` is left.
pub open spec fn render(template: Seq<char>, reps: Seq<(Seq<char>, Seq<char>)>) -> RenderOutcome {
    match apply_replacements(template, reps) {
        RenderOutcome::Rendered(out) => {
            if contains(out, seq!['{', '{']) || contains(out, seq!['}', '}']) {
                RenderOutcome::Unknown
            } else {
                RenderOutcome::Rendered(out)
            }
        },
        other => other,
    }
}

/// The replacement pairs as character sequences.
pub open spec fn reps_view(v: Seq<(String, String)>) -> Seq<(Seq<char>, Seq<char>)> {
    Seq::new(v.len(), |i: int| (v[i].0@, v[i].1@))
}

/// What a rendering result says, over character sequences.
pub open spec fn outcome_of(r: Result<String, TemplateError>) -> RenderOutcome {
    match r {
        Ok(s) => RenderOutcome::Rendered(s@),
        Err(TemplateError::MissingPlaceholder(p)) => RenderOutcome::Missing(p@),
        Err(TemplateError::UnknownPlaceholder) => RenderOutcome::Unknown,
    }
}

proof fn lemma_failure_persists(template: Seq<char>, reps: Seq<(Seq<char>, Seq<char>)>, j: int)
    requires
        0 <= j <= reps.len(),
        !(apply_replacements(template, reps.take(j)) is Rendered),
    ensures
        apply_replacements(template, reps) == apply_replacements(template, reps.take(j)),
    decreases reps.len() - j,
{
    if j < reps.len() {
        assert(reps.take(j + 1).drop_last() =~= reps.take(j));
        lemma_failure_persists(template, reps, j + 1);
    } else {
        assert(reps.take(j) =~= reps);
    }
}

fn placeholder_chars(key: &str) -> (p: Vec<char>)
    ensures
        p@ == placeholder(key@),
{
    let mut p: Vec<char> = Vec::new();
    p.push('{');
    p.push('{');
    let k = chars_of(key);
    crate::text::append_chars(&mut p, k.as_slice());
    p.push('}');
    p.push('}');
    assert(p@ =~= placeholder(key@));
    p
}

/// Renders a template: every `{{key}}` of each `(key, value)` pair, in order,
/// is replaced by `value`.
pub fn render_template(template: &str, replacements: &Vec<(String, String)>) -> (r: Result<
    String,
    TemplateError,
>)
    ensures
        outcome_of(r) == render(template@, reps_view(replacements@)),
{
    let ghost reps = reps_view(replacements@);
    let mut cur = chars_of(template);
    let mut i: usize = 0;
    assert(reps.take(0) =~= Seq::<(Seq<char>, Seq<char>)>::empty());
    while i < replacements.len()
        invariant
            i <= replacements@.len(),
            reps == reps_view(replacements@),
            apply_replacements(template@, reps.take(i as int)) == RenderOutcome::Rendered(cur@),
        decreases replacements@.len() - i,
    {
        let ph = placeholder_chars(replacements[i].0.as_str());
        assert(reps.take(i + 1).drop_last() =~= reps.take(i as int));
        assert(reps.take(i + 1).last() == reps[i as int]);
        if !contains_chars(cur.as_slice(), ph.as_slice()) {
            proof {
                lemma_failure_persists(template@, reps, i + 1);
            }
            return Err(TemplateError::MissingPlaceholder(string_of(ph.as_slice())));
        }
        let val = chars_of(replacements[i].1.as_str());
        cur = replace_chars(cur.as_slice(), ph.as_slice(), val.as_slice());
        i += 1;
    }
    assert(reps.take(i as int) =~= reps);
    match reject_unknown_placeholders(cur.as_slice()) {
        Ok(()) => Ok(string_of(cur.as_slice())),
        Err(e) => Err(e),
    }
}

/// A rendered text may hold no `{{` and no `}}`: they would be a placeholder
/// that no replacement filled, or a malformed one.
pub fn reject_unknown_placeholders(rendered: &[char]) -> (r: Result<(), TemplateError>)
    ensures
        r == (if contains(rendered@, seq!['{', '{']) || contains(rendered@, seq!['}', '}']) {
            Err(TemplateError::UnknownPlaceholder)
        } else {
            Ok::<(), TemplateError>(())
        }),
{
    proof {
        reveal_strlit("{{");
        reveal_strlit("}}");
        assert("{{"@ =~= seq!['{', '{']);
        assert("}}"@ =~= seq!['}', '}']);
    }
    if contains_str(rendered, "{{") || contains_str(rendered, "}}") {
        Err(TemplateError::UnknownPlaceholder)
    } else {
        Ok(())
    }
}

/// The replacements of a Slurm job template: `{{generation}}` and `{{max_index}}`.
pub open spec fn job_replacements(generation: nat, max_index: nat) -> Seq<
    (Seq<char>, Seq<char>),
> {
    seq![("generation"@, decimal(generation)), ("max_index"@, decimal(max_index))]
}

/// Renders a Slurm job template, whose required placeholders are
/// `{{generation}}` and `{{max_index}}`.
pub fn render_job_template(template: &str, generation: u32, max_index: usize) -> (r: Result<
    String,
    TemplateError,
>)
    ensures
        outcome_of(r) == render(template@, job_replacements(generation as nat, max_index as nat)),
{
    let mut reps: Vec<(String, String)> = Vec::new();
    let g = string_of(decimal_chars(generation as u64).as_slice());
    let m = string_of(decimal_chars(max_index as u64).as_slice());
    reps.push(("generation".to_owned(), g));
    reps.push(("max_index".to_owned(), m));
    assert(reps_view(reps@) =~= job_replacements(generation as nat, max_index as nat));
    render_template(template, &reps)
}

/// Why a Slurm array script could not be made.
#[derive(Debug, Clone, PartialEq, Eq)]
pub enum ArrayScriptError {
    /// The array would have no tasks.
    NoTasks,
    /// The job template is not there.
    MissingTemplate,
    /// The job template could not be rendered.
    Render(TemplateError),
}

/// What an array-script result says of rendering, if it got that far.
pub open spec fn array_outcome(r: Result<String, ArrayScriptError>) -> Option<RenderOutcome> {
    match r {
        Ok(s) => Some(RenderOutcome::Rendered(s@)),
        Err(ArrayScriptError::Render(e)) => Some(outcome_of(Err(e))),
        Err(_) => None,
    }
}

/// The text of a Slurm array script of `tasks` tasks, indexed from zero, for
/// `generation`, from its job template (`None` when the template is missing).
pub fn render_array_script(template: Option<&str>, generation: u32, tasks: usize) -> (r: Result<
    String,
    ArrayScriptError,
>)
    ensures
        tasks == 0 ==> r == Err::<String, ArrayScriptError>(ArrayScriptError::NoTasks),
        tasks > 0 && template is None ==> r == Err::<String, ArrayScriptError>(
            ArrayScriptError::MissingTemplate,
        ),
        tasks > 0 && template is Some ==> array_outcome(r) == Some(
            render(
                template->0@,
                job_replacements(generation as nat, (tasks - 1) as nat),
            ),
        ),
{
    if tasks == 0 {
        return Err(ArrayScriptError::NoTasks);
    }
    match template {
        None => Err(ArrayScriptError::MissingTemplate),
        Some(t) => match render_job_template(t, generation, tasks - 1) {
            Ok(s) => Ok(s),
            Err(e) => Err(ArrayScriptError::Render(e)),
        },
    }
}

// ---------------------------------------------------------------------------
// Laws
// ---------------------------------------------------------------------------

/// No character of `s` is a brace.
pub open spec fn brace_free(s: Seq<char>) -> bool {
    forall|i: int| 0 <= i < s.len() ==> s[i] != '{' && s[i] != '}'
}

proof fn lemma_brace_free_no_braces(s: Seq<char>)
    requires
        brace_free(s),
    ensures
        !contains(s, seq!['{', '{']),
        !contains(s, seq!['}', '}']),
{
    assert forall|i: int| !occurs_at(s, seq!['{', '{'], i) by {
        if occurs_at(s, seq!['{', '{'], i) {
            assert(s.subrange(i, i + 2)[0] == s[i]);
        }
    }
    assert forall|i: int| !occurs_at(s, seq!['}', '}'], i) by {
        if occurs_at(s, seq!['}', '}'], i) {
            assert(s.subrange(i, i + 2)[0] == s[i]);
        }
    }
}

/// No character of `s` opens a brace.
pub open spec fn open_brace_free(s: Seq<char>) -> bool {
    forall|i: int| 0 <= i < s.len() ==> s[i] != '{'
}

proof fn lemma_replace_brace_free_prefix(x: Seq<char>, y: Seq<char>, p: Seq<char>, r: Seq<char>)
    requires
        open_brace_free(x),
        p.len() > 0,
        p[0] == '{',
    ensures
        replace_all(x + y, p, r) == x + replace_all(y, p, r),
    decreases x.len(),
{
    if x.len() == 0 {
        assert(x + y =~= y);
        assert(x + replace_all(y, p, r) =~= replace_all(y, p, r));
    } else {
        let s = x + y;
        assert(s[0] == x[0]);
        assert(!starts_with(s, p)) by {
            if starts_with(s, p) {
                assert(s.take(p.len() as int)[0] == s[0]);
            }
        }
        assert(s.drop_first() =~= x.drop_first() + y);
        lemma_replace_brace_free_prefix(x.drop_first(), y, p, r);
        assert(seq![x[0]] + (x.drop_first() + replace_all(y, p, r)) =~= x + replace_all(y, p, r));
    }
}

proof fn lemma_replace_brace_free(b: Seq<char>, p: Seq<char>, r: Seq<char>)
    requires
        open_brace_free(b),
        p.len() > 0,
        p[0] == '{',
    ensures
        replace_all(b, p, r) == b,
{
    lemma_replace_brace_free_prefix(b, Seq::empty(), p, r);
    assert(b + Seq::<char>::empty() =~= b);
}

/// A placeholder surrounded by brace-free text is replaced by a brace-free
/// value: rendering `a{{key}}b` with `(key, v)` gives `avb`.
#[verifier::rlimit(50)]
#[verifier::spinoff_prover]
pub proof fn law_render_fills_placeholder(a: Seq<char>, key: Seq<char>, b: Seq<char>, v: Seq<char>)
    requires
        brace_free(a),
        brace_free(key),
        brace_free(b),
        brace_free(v),
    ensures
        render(a + placeholder(key) + b, seq![(key, v)]) == RenderOutcome::Rendered(a + v + b),
{
    let ph = placeholder(key);
    let t = a + ph + b;
    let reps = seq![(key, v)];
    assert(reps.drop_last() =~= Seq::<(Seq<char>, Seq<char>)>::empty());
    assert(occurs_at(t, ph, a.len() as int)) by {
        assert(t.subrange(a.len() as int, (a.len() + ph.len()) as int) =~= ph);
    }
    assert(ph[0] == '{');
    assert(t =~= a + (ph + b));
    lemma_replace_brace_free_prefix(a, ph + b, ph, v);
    assert((ph + b).skip(ph.len() as int) =~= b);
    assert(starts_with(ph + b, ph)) by {
        assert((ph + b).take(ph.len() as int) =~= ph);
    }
    lemma_replace_brace_free(b, ph, v);
    assert((ph + b).len() > 0);
    assert(replace_all(ph + b, ph, v) == v + replace_all((ph + b).skip(ph.len() as int), ph, v));
    assert(replace_all(ph + b, ph, v) == v + b);
    assert(replace_all(t, ph, v) == a + (v + b));
    let out = a + v + b;
    assert(a + (v + b) =~= out);
    assert(apply_replacements(t, reps.drop_last()) == RenderOutcome::Rendered(t));
    assert(contains(t, ph));
    assert(reps.last() == (key, v));
    assert(apply_replacements(t, reps) == RenderOutcome::Rendered(out));
    assert(brace_free(out));
    lemma_brace_free_no_braces(out);
}

/// A successful rendering holds neither `{{` nor `}}`, so no placeholder at all.
pub proof fn law_rendered_has_no_placeholder(
    template: Seq<char>,
    reps: Seq<(Seq<char>, Seq<char>)>,
    key: Seq<char>,
)
    requires
        render(template, reps) is Rendered,
    ensures
        !contains(render(template, reps)->Rendered_0, seq!['{', '{']),
        !contains(render(template, reps)->Rendered_0, seq!['}', '}']),
        !contains(render(template, reps)->Rendered_0, placeholder(key)),
{
    let out = render(template, reps)->Rendered_0;
    assert forall|i: int| !occurs_at(out, placeholder(key), i) by {
        if occurs_at(out, placeholder(key), i) {
            assert(placeholder(key).take(2) =~= seq!['{', '{']);
            assert(out.subrange(i, i + 2) =~= out.subrange(i, i + placeholder(key).len()).take(2));
            assert(occurs_at(out, seq!['{', '{'], i));
        }
    }
}

/// A Slurm job template without `{{generation}}` is refused for that placeholder,
/// whatever the numbers.
pub proof fn law_job_template_requires_generation(template: Seq<char>, generation: nat, max_index: nat)
    requires
        !contains(template, placeholder("generation"@)),
    ensures
        render(template, job_replacements(generation, max_index)) == RenderOutcome::Missing(
            placeholder("generation"@),
        ),
{
    let reps = job_replacements(generation, max_index);
    assert(reps.drop_last().drop_last() =~= Seq::<(Seq<char>, Seq<char>)>::empty());
    assert(reps.drop_last().last() == ("generation"@, decimal(generation)));
    assert(apply_replacements(template, reps.drop_last().drop_last()) == RenderOutcome::Rendered(
        template,
    ));
    assert(apply_replacements(template, reps.drop_last()) == RenderOutcome::Missing(
        placeholder("generation"@),
    ));
}

/// Rendering refuses a text only for what the replacements left behind being a
/// double brace: when every placeholder is present and the substituted text
/// holds neither `{{` nor `}}`, that text is the result, single braces and all;
/// and every result is such a text.
pub proof fn law_render_accepts_exactly_double_brace_free(
    template: Seq<char>,
    reps: Seq<(Seq<char>, Seq<char>)>,
    out: Seq<char>,
)
    ensures
        render(template, reps) == RenderOutcome::Rendered(out) <==> (apply_replacements(
            template,
            reps,
        ) == RenderOutcome::Rendered(out) && !contains(out, seq!['{', '{']) && !contains(
            out,
            seq!['}', '}'],
        )),
{
}

/// With no replacements, a template renders to itself exactly when it holds
/// neither `{{` nor `}}`; otherwise it is refused as holding an unknown placeholder.
pub proof fn law_render_without_replacements(template: Seq<char>)
    ensures
        render(template, Seq::empty()) == (if !contains(template, seq!['{', '{']) && !contains(
            template,
            seq!['}', '}'],
        ) {
            RenderOutcome::Rendered(template)
        } else {
            RenderOutcome::Unknown
        }),
{
}

/// A placeholder between texts that open no brace is replaced by any value;
/// when the result holds no double brace it is the outcome, however many
/// single `}` it holds.
#[verifier::rlimit(50)]
#[verifier::spinoff_prover]
pub proof fn law_render_fills_placeholder_among_closing_braces(
    a: Seq<char>,
    key: Seq<char>,
    b: Seq<char>,
    v: Seq<char>,
)
    requires
        open_brace_free(a),
        brace_free(key),
        open_brace_free(b),
        !contains(a + v + b, seq!['{', '{']),
        !contains(a + v + b, seq!['}', '}']),
    ensures
        render(a + placeholder(key) + b, seq![(key, v)]) == RenderOutcome::Rendered(a + v + b),
{
    let ph = placeholder(key);
    let t = a + ph + b;
    let reps = seq![(key, v)];
    assert(reps.drop_last() =~= Seq::<(Seq<char>, Seq<char>)>::empty());
    assert(occurs_at(t, ph, a.len() as int)) by {
        assert(t.subrange(a.len() as int, (a.len() + ph.len()) as int) =~= ph);
    }
    assert(ph[0] == '{');
    assert(t =~= a + (ph + b));
    lemma_replace_brace_free_prefix(a, ph + b, ph, v);
    assert((ph + b).skip(ph.len() as int) =~= b);
    assert(starts_with(ph + b, ph)) by {
        assert((ph + b).take(ph.len() as int) =~= ph);
    }
    lemma_replace_brace_free(b, ph, v);
    assert((ph + b).len() > 0);
    assert(replace_all(ph + b, ph, v) == v + replace_all((ph + b).skip(ph.len() as int), ph, v));
    assert(replace_all(t, ph, v) == a + (v + b));
    let out = a + v + b;
    assert(a + (v + b) =~= out);
    assert(apply_replacements(t, reps.drop_last()) == RenderOutcome::Rendered(t));
    assert(contains(t, ph));
    assert(reps.last() == (key, v));
    assert(apply_replacements(t, reps) == RenderOutcome::Rendered(out));
}

} // verus!
