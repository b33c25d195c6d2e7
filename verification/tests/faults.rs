use gettext_macros::fault::{Fault, FileFault};

#[test]
fn faults_have_their_sentences() {
    let all = [
        (Fault::ExpectedCatalog, "Expected catalog"),
        (Fault::ExpectedMessage, "Expected a message to translate"),
        (Fault::EmptyExpression, "Unexpected empty expression"),
        (Fault::DomainNotStr, "Domain should be a str"),
        (Fault::ExpectedDomain, "Expected a translation domain (for instance \"myapp\")"),
        (Fault::ExpectedLanguage, "Expected a language identifier"),
        (
            Fault::NoManifestDir,
            "CARGO_MANIFEST_DIR is not set. Please use cargo to compile your crate.",
        ),
        (Fault::NoParentDir, "No parent dir"),
        (Fault::NoPackageName, "Please build with cargo"),
        (
            Fault::InvalidConfig,
            "Invalid config file. Make sure to call init_i18n! before this macro",
        ),
        (Fault::UnreadableConfig, "IO error while reading config"),
        (Fault::BadMakePo, "Couldn't parse make_po"),
        (Fault::BadMakeMo, "Couldn't parse make_mo"),
        (Fault::BadWriteLoc, "Couldn't parse write_loc"),
        (Fault::DomainNotWritten, "Couldn't write domain"),
        (Fault::MakePoNotWritten, "Couldn't write po settings"),
        (Fault::MakeMoNotWritten, "Couldn't write mo settings"),
        (Fault::WriteLocNotWritten, "Couldn't write location settings"),
        (Fault::LangNotWritten, "Couldn't write lang"),
        (Fault::MessageNotWritten, "Couldn't write message to .pot"),
        (Fault::PluralNotWritten, "Couldn't write message to .pot (plural)"),
        (Fault::MergeFailed, "Couldn't update PO file"),
        (Fault::MergeNotRun, "Couldn't update PO file. Make sure msgmerge is installed."),
        (Fault::InitFailed, "Couldn't init PO file (gettext returned an error)"),
        (Fault::InitNotRun, "Couldn't init PO file. Make sure msginit is installed."),
        (Fault::FormatFailed, "Couldn't compile translations (gettext returned an error)"),
        (Fault::FormatNotRun, "Couldn't compile translations. Make sure msgfmt is installed"),
        (Fault::NoMoDirectory, "Couldn't create MO directory"),
    ];
    for (fault, sentence) in all {
        assert_eq!(fault.message(), sentence);
        assert_eq!(FileFault::Plain(fault).message(), sentence);
    }
}

#[test]
fn missing_files_are_named() {
    assert_eq!(
        FileFault::MissingPo("/w/de.po".to_string()).message(),
        "/w/de.po doesn't exist. Make sure you didn't disabled po generation."
    );
    assert_eq!(
        FileFault::MissingMo("/w/de.mo".to_string()).message(),
        "/w/de.mo doesn't exist. Make sure to call compile_i18n! before include_i18n!, and check that you didn't disabled mo compilation."
    );
}
