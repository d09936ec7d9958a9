//! The LAMMPS side of a generation: which input file it runs, the models its
//! committee members are given, and its Slurm array script.
use vstd::prelude::*;
use crate::number::{decimal, decimal_chars};
use crate::template::{render_array_script, array_outcome, job_replacements, render, ArrayScriptError};
use crate::text::{
    append_chars, chars_eq, chars_of, ends_with, ends_with_chars, seqs_of, starts_with,
    starts_with_chars, string_of,
};

verus! {

/// Prepares the molecular-dynamics runs of a generation.
pub struct LammpsManager;

/// The models that the committee's MD runs are given.
#[derive(Debug, Clone, Copy, PartialEq, Eq, Structural)]
pub enum MdModelPackage {
    UpetMock,
    N2p2Inputs,
}

/// The files, taken from a member's model directory, that its package holds.
pub open spec fn package_files(p: MdModelPackage) -> Seq<Seq<char>> {
    match p {
        MdModelPackage::UpetMock => seq!["mock_trained_model.pt"@],
        MdModelPackage::N2p2Inputs => seq!["input.data"@, "input.nn"@, "scaling.data"@],
    }
}

impl MdModelPackage {
    /// The files that each member's package must hold, in the order they are copied.
    pub fn required_files(&self) -> (r: Vec<&'static str>)
        ensures
            r@.map_values(|s: &'static str| s@) == package_files(*self),
    {
        let r: Vec<&'static str> = match self {
            MdModelPackage::UpetMock => vec!["mock_trained_model.pt"],
            MdModelPackage::N2p2Inputs => vec!["input.data", "input.nn", "scaling.data"],
        };
        assert(r@.map_values(|s: &'static str| s@) =~= package_files(*self));
        r
    }

    /// Whether a package also holds the selected weight files, at least one.
    pub fn needs_weights(&self) -> (r: bool)
        ensures
            r == (*self == MdModelPackage::N2p2Inputs),
    {
        match self {
            MdModelPackage::UpetMock => false,
            MdModelPackage::N2p2Inputs => true,
        }
    }

    /// Whether a member's package also seeds the `n2p2` driver directory of
    /// the MD run: the first member's n2p2 package does.
    pub fn seeds_driver(&self, member_index: usize) -> (r: bool)
        ensures
            r == (*self == MdModelPackage::N2p2Inputs && member_index == 0),
    {
        match self {
            MdModelPackage::UpetMock => false,
            MdModelPackage::N2p2Inputs => member_index == 0,
        }
    }
}

/// Why no LAMMPS input file could be chosen.
#[derive(Debug, Clone, PartialEq, Eq)]
pub enum FindInputError {
    /// No file ends in `.in`.
    NoInputFiles,
    /// Several do, and this generation's own (its name given) is not among them.
    MissingGenerationInput(String),
}

/// A file name whose extension, as `Path::extension` reads it, is `in`: it ends
/// in `.in` and something comes before that dot.
pub open spec fn has_in_extension(name: Seq<char>) -> bool {
    name.len() > 3 && ends_with(name, ".in"@)
}

/// The names with the `in` extension, in their order.
pub open spec fn input_files(names: Seq<Seq<char>>) -> Seq<Seq<char>>
    decreases names.len(),
{
    if names.len() == 0 {
        Seq::empty()
    } else {
        let r = input_files(names.drop_last());
        if has_in_extension(names.last()) {
            r.push(names.last())
        } else {
            r
        }
    }
}

/// `gen_<generation>.in`.
pub open spec fn generation_input_name(generation: nat) -> Seq<char> {
    "gen_"@ + decimal(generation) + ".in"@
}

/// The rule: one `.in` file serves every generation; with several, generation
/// `g` needs `gen_<g>.in`.
pub open spec fn choose_input(names: Seq<Seq<char>>, generation: nat) -> Result<
    Seq<char>,
    Option<Seq<char>>,
> {
    let files = input_files(names);
    if files.len() == 0 {
        Err(None)
    } else if files.len() == 1 {
        Ok(files[0])
    } else if files.contains(generation_input_name(generation)) {
        Ok(generation_input_name(generation))
    } else {
        Err(Some(generation_input_name(generation)))
    }
}

impl LammpsManager {
    /// Chooses the LAMMPS input file of a generation among the names of the
    /// regular files in the `lammps/in` directory.
    pub fn find_input_file(file_names: &Vec<String>, gen_num: u32) -> (r: Result<
        String,
        FindInputError,
    >)
        ensures
            match choose_input(file_names.deep_view(), gen_num as nat) {
                Ok(name) => r matches Ok(s) && s@ == name,
                Err(None) => r == Err::<String, FindInputError>(FindInputError::NoInputFiles),
                Err(Some(name)) => r matches Err(FindInputError::MissingGenerationInput(s))
                    && s@ == name,
            },
    {
        let ghost names = file_names.deep_view();
        let suffix = chars_of(".in");
        let mut files: Vec<Vec<char>> = Vec::new();
        let mut i: usize = 0;
        assert(names.take(0) =~= Seq::<Seq<char>>::empty());
        while i < file_names.len()
            invariant
                i <= file_names@.len(),
                names == file_names.deep_view(),
                suffix@ == ".in"@,
                seqs_of(files@) == input_files(names.take(i as int)),
            decreases file_names@.len() - i,
        {
            let name = chars_of(file_names[i].as_str());
            assert(names.take(i + 1).drop_last() =~= names.take(i as int));
            assert(names.take(i + 1).last() == name@);
            if name.len() > 3 && ends_with_chars(name.as_slice(), suffix.as_slice()) {
                let ghost before = seqs_of(files@);
                let ghost nv = name@;
                files.push(name);
                assert(seqs_of(files@) =~= before.push(nv));
            }
            i += 1;
        }
        assert(names.take(i as int) =~= names);
        if files.len() == 0 {
            return Err(FindInputError::NoInputFiles);
        }
        if files.len() == 1 {
            assert(seqs_of(files@)[0] == files@[0]@);
            return Ok(string_of(files[0].as_slice()));
        }
        let mut wanted = chars_of("gen_");
        let d = decimal_chars(gen_num as u64);
        append_chars(&mut wanted, d.as_slice());
        let ext = chars_of(".in");
        append_chars(&mut wanted, ext.as_slice());
        assert(wanted@ == generation_input_name(gen_num as nat));
        let mut k: usize = 0;
        while k < files.len()
            invariant
                k <= files@.len(),
                files@.len() >= 2,
                names == file_names.deep_view(),
                seqs_of(files@) == input_files(names),
                wanted@ == generation_input_name(gen_num as nat),
                forall|j: int| 0 <= j < k ==> seqs_of(files@)[j] != wanted@,
            decreases files@.len() - k,
        {
            assert(seqs_of(files@)[k as int] == files@[k as int]@);
            if chars_eq(files[k].as_slice(), wanted.as_slice()) {
                assert(seqs_of(files@).contains(wanted@));
                return Ok(string_of(wanted.as_slice()));
            }
            k += 1;
        }
        assert(!seqs_of(files@).contains(wanted@));
        Err(FindInputError::MissingGenerationInput(string_of(wanted.as_slice())))
    }

    /// The text of the MD array script: one Slurm array task per MD run, from
    /// the `md_array.sh.template` job template (`None` when it is missing).
    pub fn create_md_array_script(template: Option<&str>, gen_num: u32, committee_members: usize) -> (r:
        Result<String, ArrayScriptError>)
        ensures
            committee_members == 0 ==> r == Err::<String, ArrayScriptError>(
                ArrayScriptError::NoTasks,
            ),
            committee_members > 0 && template is None ==> r == Err::<String, ArrayScriptError>(
                ArrayScriptError::MissingTemplate,
            ),
            committee_members > 0 && template is Some ==> array_outcome(r) == Some(
                render(
                    template->0@,
                    job_replacements(gen_num as nat, (committee_members - 1) as nat),
                ),
            ),
    {
        render_array_script(template, gen_num, committee_members)
    }

    /// A file of an n2p2 model directory that holds selected weights:
    /// `weights.*.data`.
    pub fn is_weights_file(file_name: &str) -> (r: bool)
        ensures
            r == (starts_with(file_name@, "weights."@) && ends_with(file_name@, ".data"@)),
    {
        let n = chars_of(file_name);
        let p = chars_of("weights.");
        let s = chars_of(".data");
        starts_with_chars(n.as_slice(), p.as_slice()) && ends_with_chars(n.as_slice(), s.as_slice())
    }
}

/// With exactly one `.in` file, every generation runs that file.
pub proof fn law_single_input_serves_every_generation(names: Seq<Seq<char>>, g1: nat, g2: nat)
    requires
        input_files(names).len() == 1,
    ensures
        choose_input(names, g1) == choose_input(names, g2),
        choose_input(names, g1) == Ok::<Seq<char>, Option<Seq<char>>>(input_files(names)[0]),
{
}

/// With several `.in` files, a generation runs its own `gen_<g>.in` when it is
/// there, and is refused otherwise: another generation's file is never chosen.
pub proof fn law_several_inputs_need_own_file(names: Seq<Seq<char>>, g: nat)
    requires
        input_files(names).len() > 1,
    ensures
        choose_input(names, g) matches Ok(name) ==> name == generation_input_name(g),
        choose_input(names, g) is Ok <==> input_files(names).contains(generation_input_name(g)),
{
}

} // verus!
