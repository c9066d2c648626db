use fileforge::classify::{classify, is_in_progress_name, ChangeKind, Classification, PathState};
use fileforge::text::{ends_with, same_text, starts_with};

const FILE: PathState = PathState::File { size: 10 };

#[test]
fn partial_download_names_are_noise_for_every_relevant_kind() {
    for name in ["report.pdf.crdownload", "x.tmp", "movie.mkv.partial", "a.zip.download", ".hidden"] {
        for kind in [ChangeKind::Created, ChangeKind::Renamed] {
            for state in [FILE, PathState::NotFile, PathState::Unavailable] {
                assert_eq!(classify(kind, name, state), Classification::Noise, "{name}");
            }
        }
    }
}

#[test]
fn directories_and_vanished_paths_are_noise() {
    assert_eq!(classify(ChangeKind::Created, "photos", PathState::NotFile), Classification::Noise);
    assert_eq!(classify(ChangeKind::Renamed, "photos", PathState::NotFile), Classification::Noise);
    assert_eq!(classify(ChangeKind::Created, "gone.txt", PathState::Unavailable), Classification::Noise);
}

#[test]
fn other_changes_are_ignored_for_any_path() {
    for name in ["notes.txt", "x.tmp", ".hidden", ""] {
        for state in [FILE, PathState::NotFile, PathState::Unavailable] {
            assert_eq!(classify(ChangeKind::Other, name, state), Classification::Ignore);
        }
    }
}

#[test]
fn regular_files_with_final_names_are_candidates() {
    assert_eq!(classify(ChangeKind::Created, "notes.txt", FILE), Classification::Candidate);
    assert_eq!(classify(ChangeKind::Renamed, "report.pdf", FILE), Classification::Candidate);
    // A marker in the middle of the name is no suffix.
    assert_eq!(classify(ChangeKind::Created, "a.tmp.txt", FILE), Classification::Candidate);
    assert_eq!(classify(ChangeKind::Created, "", FILE), Classification::Candidate);
}

#[test]
fn in_progress_names() {
    assert!(is_in_progress_name(".crdownload"));
    assert!(is_in_progress_name("."));
    assert!(!is_in_progress_name("tmp"));
    assert!(!is_in_progress_name("report.pdf"));
    assert!(!is_in_progress_name("résumé.docx"));
    assert!(is_in_progress_name("résumé.docx.crdownload"));
}

#[test]
fn text_helpers() {
    assert!(ends_with("abc", "bc"));
    assert!(ends_with("abc", ""));
    assert!(!ends_with("bc", "abc"));
    assert!(starts_with("abc", "ab"));
    assert!(!starts_with("abc", "b"));
    assert!(same_text("ü", "ü"));
    assert!(!same_text("ab", "abc"));
    assert!(!same_text("ab", "ac"));
}
