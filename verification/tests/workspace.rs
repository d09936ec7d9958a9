use ai_scheduler::config::{
    Backend, CommitteeConfig, Config, ConfigError, EnergyMode, ProjectConfig, TrainingConfig,
};
use ai_scheduler::install::{is_development_build, skips_entry};
use ai_scheduler::lammps::{FindInputError, LammpsManager, MdModelPackage};
use ai_scheduler::layout::{config_run_name, generation_dir_name, member_name, selected_structures_name};
use ai_scheduler::template::{
    reject_unknown_placeholders, render_job_template, render_template, ArrayScriptError,
    TemplateError,
};
use ai_scheduler::text::chars_of;
use ai_scheduler::vasp::{CountError, VaspWorkspace};
use ai_scheduler::number::IntErrorKind;

fn names(v: &[&str]) -> Vec<String> {
    v.iter().map(|s| s.to_string()).collect()
}

fn config(backend: Backend, energy_mode: EnergyMode, members: usize) -> Config {
    Config {
        project: ProjectConfig { generations: 3 },
        training: TrainingConfig { backend, energy_mode },
        committee: CommitteeConfig { members },
    }
}

#[test]
fn template_replaces_every_occurrence() {
    let reps = vec![("checkpoint".to_owned(), "/path/to/model.ckpt".to_owned())];
    let out = render_template("a: {{checkpoint}}\nb: {{checkpoint}}\n", &reps).unwrap();
    assert_eq!(out, "a: /path/to/model.ckpt\nb: /path/to/model.ckpt\n");
}

#[test]
fn template_replacements_apply_in_order() {
    let reps = vec![
        ("train_set".to_owned(), "/d/train.extxyz".to_owned()),
        ("energy_key".to_owned(), "energy".to_owned()),
    ];
    let out = render_template("train={{train_set}} key={{energy_key}}", &reps).unwrap();
    assert_eq!(out, "train=/d/train.extxyz key=energy");
}

#[test]
fn template_missing_placeholder() {
    let reps = vec![("checkpoint".to_owned(), "x".to_owned())];
    let err = render_template("nothing here", &reps).unwrap_err();
    assert_eq!(err, TemplateError::MissingPlaceholder("{{checkpoint}}".to_owned()));
    assert_eq!(
        err.message("t.yaml"),
        "Template t.yaml is missing required placeholder {{checkpoint}}"
    );
}

#[test]
fn template_unknown_placeholder() {
    let reps = vec![("a".to_owned(), "1".to_owned())];
    assert_eq!(
        render_template("{{a}} {{b}}", &reps),
        Err(TemplateError::UnknownPlaceholder)
    );
    assert_eq!(render_template("x }} y", &vec![]), Err(TemplateError::UnknownPlaceholder));
    assert_eq!(render_template("plain", &vec![]), Ok("plain".to_owned()));
    assert_eq!(
        TemplateError::UnknownPlaceholder.message("t"),
        "Template t contains an unknown or malformed placeholder"
    );
}

#[test]
fn template_value_with_braces_is_refused() {
    let reps = vec![("a".to_owned(), "{{".to_owned())];
    assert_eq!(render_template("{{a}}", &reps), Err(TemplateError::UnknownPlaceholder));
}

#[test]
fn job_template_fills_generation_and_max_index() {
    let t = "#SBATCH --array=0-{{max_index}}\necho gen {{generation}}\n";
    assert_eq!(
        render_job_template(t, 12, 7).unwrap(),
        "#SBATCH --array=0-7\necho gen 12\n"
    );
}

#[test]
fn job_template_requires_both_placeholders() {
    assert_eq!(
        render_job_template("{{max_index}}", 1, 0),
        Err(TemplateError::MissingPlaceholder("{{generation}}".to_owned()))
    );
    assert_eq!(
        render_job_template("{{generation}}", 1, 0),
        Err(TemplateError::MissingPlaceholder("{{max_index}}".to_owned()))
    );
}

#[test]
fn single_input_file_serves_every_generation() {
    let files = names(&["run.in", "notes.txt"]);
    assert_eq!(LammpsManager::find_input_file(&files, 1), Ok("run.in".to_owned()));
    assert_eq!(LammpsManager::find_input_file(&files, 9), Ok("run.in".to_owned()));
}

#[test]
fn several_input_files_need_generation_file() {
    let files = names(&["gen_1.in", "gen_2.in", "README"]);
    assert_eq!(LammpsManager::find_input_file(&files, 2), Ok("gen_2.in".to_owned()));
    assert_eq!(
        LammpsManager::find_input_file(&files, 3),
        Err(FindInputError::MissingGenerationInput("gen_3.in".to_owned()))
    );
}

#[test]
fn input_file_extension_rules() {
    assert_eq!(
        LammpsManager::find_input_file(&names(&[".in", "in", "x.inp"]), 1),
        Err(FindInputError::NoInputFiles)
    );
    assert_eq!(
        LammpsManager::find_input_file(&names(&["a.b.in"]), 1),
        Ok("a.b.in".to_owned())
    );
    assert_eq!(
        LammpsManager::find_input_file(&names(&[]), 1),
        Err(FindInputError::NoInputFiles)
    );
}

#[test]
fn md_array_script_has_one_task_per_member() {
    let t = "--array=0-{{max_index}} gen={{generation}}";
    assert_eq!(
        LammpsManager::create_md_array_script(Some(t), 4, 1),
        Ok("--array=0-0 gen=4".to_owned())
    );
    assert_eq!(
        LammpsManager::create_md_array_script(Some(t), 4, 5),
        Ok("--array=0-4 gen=4".to_owned())
    );
}

#[test]
fn md_array_script_errors() {
    assert_eq!(
        LammpsManager::create_md_array_script(Some("x"), 1, 0),
        Err(ArrayScriptError::NoTasks)
    );
    assert_eq!(
        LammpsManager::create_md_array_script(None, 1, 0),
        Err(ArrayScriptError::NoTasks)
    );
    assert_eq!(
        LammpsManager::create_md_array_script(None, 1, 2),
        Err(ArrayScriptError::MissingTemplate)
    );
    assert_eq!(
        LammpsManager::create_md_array_script(Some("{{generation}}"), 1, 2),
        Err(ArrayScriptError::Render(TemplateError::MissingPlaceholder(
            "{{max_index}}".to_owned()
        )))
    );
}

#[test]
fn weights_file_names() {
    assert!(LammpsManager::is_weights_file("weights.016.data"));
    assert!(!LammpsManager::is_weights_file("weights.016.000002.out"));
    assert!(!LammpsManager::is_weights_file("input.data"));
}

#[test]
fn md_model_package_follows_backend() {
    assert_eq!(
        config(Backend::Upet, EnergyMode::Raw, 2).md_model_package(),
        Some(MdModelPackage::UpetMock)
    );
    assert_eq!(config(Backend::N2p2, EnergyMode::Raw, 2).md_model_package(), None);
}

#[test]
fn configuration_count_is_read() {
    assert_eq!(VaspWorkspace::get_configuration_count(true, " 17\n", ""), Ok(17));
    assert_eq!(
        VaspWorkspace::get_configuration_count(true, "seventeen", ""),
        Err(CountError::InvalidCount(IntErrorKind::InvalidDigit))
    );
    assert_eq!(
        VaspWorkspace::get_configuration_count(true, "\n", ""),
        Err(CountError::InvalidCount(IntErrorKind::Empty))
    );
    let failed = VaspWorkspace::get_configuration_count(false, "17", "  boom \n");
    assert_eq!(failed, Err(CountError::CommandFailed("boom".to_owned())));
    assert_eq!(failed.unwrap_err().message(), "Failed to count configurations: boom");
    assert_eq!(
        CountError::InvalidCount(IntErrorKind::InvalidDigit).message(),
        "Invalid integer count: invalid digit found in string"
    );
}

#[test]
fn vasp_array_script() {
    assert_eq!(
        VaspWorkspace::create_array_script(Some("{{generation}}:{{max_index}}"), 2, 10),
        Ok("2:9".to_owned())
    );
    assert_eq!(
        VaspWorkspace::create_array_script(Some("{{generation}}:{{max_index}}"), 2, 0),
        Err(ArrayScriptError::NoTasks)
    );
}

const POSCAR: &str = "Cu S\n1.0\n15.3 0 0\n1.1 11.6 0\n-7.4 0.8 11.9\nCu S\n96 48\nDirect\n";

#[test]
fn outcar_species_from_poscar() {
    assert!(VaspWorkspace::poscar_atoms_fit(POSCAR));
    let s = VaspWorkspace::outcar_species(POSCAR);
    assert_eq!(s.total_atoms, 144);
    assert_eq!(s.vrhfin, "   VRHFIN =Cu:\n   VRHFIN =S:\n");
    assert_eq!(
        s.potcar,
        " POTCAR:    PAW_PBE Cu 01Jan2000\n POTCAR:    PAW_PBE Cu 01Jan2000\n POTCAR:    PAW_PBE S 01Jan2000\n POTCAR:    PAW_PBE S 01Jan2000\n"
    );
    assert_eq!(s.ions_per_type, " ions per type =     96     48");
}

#[test]
fn outcar_species_fallback() {
    for poscar in ["", "a\nb\nc\nd\ne\nCu S\n96\n", "a\nb\nc\nd\ne\nCu\nx\n"] {
        let s = VaspWorkspace::outcar_species(poscar);
        assert_eq!(s.total_atoms, 144);
        assert_eq!(s.ions_per_type, " ions per type =     48     96");
        assert_eq!(s.vrhfin, "   VRHFIN =S:\n   VRHFIN =Cu:\n");
    }
}

#[test]
fn outcar_species_unparsable_count_is_zero() {
    let s = VaspWorkspace::outcar_species("a\nb\nc\nd\ne\nCu S\r\n3 x\r\n");
    assert_eq!(s.total_atoms, 3);
    assert_eq!(s.ions_per_type, " ions per type =      3      x");
}

#[test]
fn poscar_atom_overflow_is_detected() {
    let big = "a\nb\nc\nd\ne\nCu S\n18446744073709551615 1\n";
    assert!(!VaspWorkspace::poscar_atoms_fit(big));
}

#[test]
fn config_rules() {
    assert_eq!(
        config(Backend::Upet, EnergyMode::Raw, 0).validate(),
        Err(ConfigError::NoCommitteeMembers)
    );
    assert_eq!(config(Backend::Upet, EnergyMode::Raw, 1).validate(), Ok(()));
    assert!(config(Backend::Upet, EnergyMode::Raw, 1).checkpoint_required());
    assert!(config(Backend::N2p2, EnergyMode::Pet, 1).checkpoint_required());
    assert!(!config(Backend::N2p2, EnergyMode::Raw, 1).checkpoint_required());
}

#[test]
fn backend_and_energy_names() {
    assert_eq!(Backend::Upet.pixi_env(), "upet");
    assert_eq!(Backend::N2p2.pixi_env(), "n2p2");
    assert_eq!(Backend::Upet.python_script(), "poscar_to_upet.py");
    assert_eq!(Backend::N2p2.python_script(), "poscar_to_n2p2.py");
    assert_eq!(EnergyMode::Pet.as_str(), "pet");
    assert_eq!(EnergyMode::Raw.as_str(), "raw");
    assert_eq!(EnergyMode::Pet.training_key(), "energy-corrected");
    assert_eq!(EnergyMode::Raw.training_key(), "energy");
}

#[test]
fn layout_names() {
    assert_eq!(member_name(0), "member_000");
    assert_eq!(member_name(42), "member_042");
    assert_eq!(member_name(1234), "member_1234");
    assert_eq!(generation_dir_name(7), "generation_7");
    assert_eq!(generation_dir_name(0), "generation_0");
    assert_eq!(config_run_name(5), "config_005");
    assert_eq!(selected_structures_name(11), "generation_11.xyz");
}

#[test]
fn install_skips_caches() {
    assert!(skips_entry("__pycache__", true, false));
    assert!(!skips_entry("__pycache__", false, true));
    assert!(skips_entry("mod.pyc", false, true));
    assert!(!skips_entry(".pyc", false, true));
    assert!(!skips_entry("mod.py", false, true));
}

#[test]
fn development_build_detection() {
    assert!(is_development_build(&names(&["/", "repo", "target", "debug", "ai_scheduler"])));
    assert!(!is_development_build(&names(&["/", "home", "bin", "ai_scheduler"])));
}

#[test]
fn leftover_braces_are_rejected() {
    assert_eq!(reject_unknown_placeholders(&chars_of("a { b } c")), Ok(()));
    assert_eq!(
        reject_unknown_placeholders(&chars_of("a {{b")),
        Err(TemplateError::UnknownPlaceholder)
    );
    assert_eq!(
        reject_unknown_placeholders(&chars_of("b}} a")),
        Err(TemplateError::UnknownPlaceholder)
    );
}
