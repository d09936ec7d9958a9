use ai_scheduler::number::{decimal_chars, parse_unsigned_chars, IntErrorKind};
use ai_scheduler::text::{chars_of, lines_chars, string_of, trim_chars, words_chars};
use ai_scheduler::training::{MemoryUnit, TrainingWorkspace};

#[test]
fn slurm_memory_request_is_found() {
    let script = "#!/bin/bash\n#SBATCH --job-name=x\n  #SBATCH --mem=4G  \n#SBATCH --mem 8G\n";
    assert_eq!(
        TrainingWorkspace::find_slurm_memory_request(script),
        Some("4G".to_owned())
    );
    assert_eq!(
        TrainingWorkspace::find_slurm_memory_request("#SBATCH --mem 2500\n"),
        Some("2500".to_owned())
    );
    assert_eq!(TrainingWorkspace::find_slurm_memory_request("echo --mem=1G\n"), None);
    assert_eq!(
        TrainingWorkspace::find_slurm_memory_request("#SBATCH --mem-per-cpu=1G\n"),
        None
    );
}

#[test]
fn memory_values_are_split() {
    assert_eq!(
        TrainingWorkspace::split_memory_value("4G"),
        Some(("4".to_owned(), MemoryUnit::GiB))
    );
    assert_eq!(
        TrainingWorkspace::split_memory_value("2500mb extra"),
        Some(("2500".to_owned(), MemoryUnit::MiB))
    );
    assert_eq!(
        TrainingWorkspace::split_memory_value("1.5TiB"),
        Some(("1.5".to_owned(), MemoryUnit::TiB))
    );
    assert_eq!(
        TrainingWorkspace::split_memory_value("512K"),
        Some(("512".to_owned(), MemoryUnit::KiB))
    );
    assert_eq!(
        TrainingWorkspace::split_memory_value("300"),
        Some(("300".to_owned(), MemoryUnit::MiB))
    );
    assert_eq!(TrainingWorkspace::split_memory_value("4X"), None);
    assert_eq!(TrainingWorkspace::split_memory_value("   "), None);
}

const SCALING_LOG: &str = "*** MEMORY USAGE ESTIMATION ***\n\
Memory for local structures  :        12471858 bytes (11.89 MiB = 0.01 GiB).\n\
Memory for all structures    :       258372813 bytes (246.40 MiB = 0.24 GiB).\n";

#[test]
fn memory_estimate_lines_and_figures() {
    let lines = TrainingWorkspace::memory_estimate_lines(SCALING_LOG);
    assert_eq!(lines.len(), 1);
    assert_eq!(
        TrainingWorkspace::parenthesized_mib_text(&lines[0]),
        Some("246.40".to_owned())
    );
    assert_eq!(
        TrainingWorkspace::words_before(&lines[0], "bytes"),
        vec!["Memory", "for", "all", "structures", ":", "258372813"]
    );
    assert_eq!(TrainingWorkspace::parenthesized_mib_text("no parens"), None);
    assert_eq!(TrainingWorkspace::parenthesized_mib_text("(12 GiB)"), None);
    assert_eq!(TrainingWorkspace::parenthesized_mib_text("( MiB)"), None);
}

#[test]
fn learning_curve_rows_are_read() {
    let text = [
        "# header",
        "",
        "         1   1.0E-02   2.0E-02   3.0E-01   4.0E-01   1.0E-02   2.0E-02   3.0E-01   4.0E-01   1.5E-01   1.80000000E-01   1.0E-01   1.0E-01",
        "short line",
        "         x   1   1   1   1   1   1   1   1   1   9.0E-02",
    ]
    .join("\n");
    let text = text.as_str();
    let rows = TrainingWorkspace::learning_curve_rows(text);
    assert_eq!(rows.len(), 2);
    assert_eq!(rows[0].epoch, Ok(1));
    assert_eq!(rows[0].rmse_text, "1.80000000E-01");
    assert_eq!(rows[1].epoch, Err(IntErrorKind::InvalidDigit));
    assert_eq!(rows[1].rmse_text, "9.0E-02");
}

#[test]
fn selected_epoch_weights() {
    let name = TrainingWorkspace::epoch_weights_name(16, 2);
    assert_eq!(name, "weights.016.000002.out");
    assert_eq!(
        TrainingWorkspace::selected_weights_target(&name, 2),
        Some("weights.016.data".to_owned())
    );
    assert_eq!(TrainingWorkspace::selected_weights_target(&name, 1), None);
    assert_eq!(
        TrainingWorkspace::selected_weights_target("scaling.000002.out", 2),
        None
    );
}

#[test]
fn text_primitives() {
    assert_eq!(string_of(&trim_chars(&chars_of("\u{3000} a b \t"))), "a b");
    let ws: Vec<String> = words_chars(&chars_of("  a\u{a0}bc  d ")).iter().map(|w| string_of(w)).collect();
    assert_eq!(ws, vec!["a", "bc", "d"]);
    let ls: Vec<String> = lines_chars(&chars_of("a\r\nb\n\nc\r")).iter().map(|w| string_of(w)).collect();
    assert_eq!(ls, vec!["a", "b", "", "c\r"]);
}

#[test]
fn numbers_parse_and_print() {
    assert_eq!(parse_unsigned_chars(&chars_of("255"), 255), Ok(255));
    assert_eq!(parse_unsigned_chars(&chars_of("256"), 255), Err(IntErrorKind::PosOverflow));
    assert_eq!(parse_unsigned_chars(&chars_of(""), 255), Err(IntErrorKind::Empty));
    assert_eq!(parse_unsigned_chars(&chars_of("+"), 255), Err(IntErrorKind::InvalidDigit));
    assert_eq!(parse_unsigned_chars(&chars_of("-1"), 255), Err(IntErrorKind::InvalidDigit));
    assert_eq!(string_of(&decimal_chars(0)), "0");
    assert_eq!(string_of(&decimal_chars(u64::MAX)), "18446744073709551615");
    for n in [0u64, 7, 10, 99, 1000, 4294967295, u64::MAX] {
        assert_eq!(parse_unsigned_chars(&decimal_chars(n), u64::MAX), Ok(n));
    }
}
