//! The reasons for which a macro call is refused.

use vstd::prelude::*;

use crate::text::join2;

verus! {

/// A reason that needs no more than its own sentence.
#[derive(Clone, Copy, Debug, PartialEq, Eq, Structural)]
pub enum Fault {
    /// A message macro was called with nothing at all.
    ExpectedCatalog,
    /// There is no message to translate.
    ExpectedMessage,
    /// A macro variable stands for no tokens.
    EmptyExpression,
    /// The translation domain is no literal.
    DomainNotStr,
    /// There is no translation domain.
    ExpectedDomain,
    /// Something else stands where a language should.
    ExpectedLanguage,
    /// The build does not say where the crate's manifest is.
    NoManifestDir,
    /// The directory of the manifest has no parent.
    NoParentDir,
    /// The build does not say what the package is called.
    NoPackageName,
    /// The configuration ends too early.
    InvalidConfig,
    /// A line of the configuration is not text.
    UnreadableConfig,
    /// The setting for `.po` files is neither `true` nor `false`.
    BadMakePo,
    /// The setting for `.mo` files is neither `true` nor `false`.
    BadMakeMo,
    /// The setting for locations is neither `true` nor `false`.
    BadWriteLoc,
    /// The domain could not be written to the configuration.
    DomainNotWritten,
    /// The setting for `.po` files could not be written to the configuration.
    MakePoNotWritten,
    /// The setting for `.mo` files could not be written to the configuration.
    MakeMoNotWritten,
    /// The setting for locations could not be written to the configuration.
    WriteLocNotWritten,
    /// A language could not be written to the configuration.
    LangNotWritten,
    /// A message could not be written to the template of translations.
    MessageNotWritten,
    /// A message with a plural could not be written to the template of translations.
    PluralNotWritten,
    /// `msgmerge` reported a failure.
    MergeFailed,
    /// `msgmerge` could not be started.
    MergeNotRun,
    /// `msginit` reported a failure.
    InitFailed,
    /// `msginit` could not be started.
    InitNotRun,
    /// `msgfmt` reported a failure.
    FormatFailed,
    /// `msgfmt` could not be started.
    FormatNotRun,
    /// The directory for a `.mo` file could not be made.
    NoMoDirectory,
}

impl Fault {
    /// The sentence that a user sees.
    pub open spec fn sentence(self) -> Seq<char> {
        match self {
            Fault::ExpectedCatalog => "Expected catalog"@,
            Fault::ExpectedMessage => "Expected a message to translate"@,
            Fault::EmptyExpression => "Unexpected empty expression"@,
            Fault::DomainNotStr => "Domain should be a str"@,
            Fault::ExpectedDomain => "Expected a translation domain (for instance \"myapp\")"@,
            Fault::ExpectedLanguage => "Expected a language identifier"@,
            Fault::NoManifestDir =>
                "CARGO_MANIFEST_DIR is not set. Please use cargo to compile your crate."@,
            Fault::NoParentDir => "No parent dir"@,
            Fault::NoPackageName => "Please build with cargo"@,
            Fault::InvalidConfig =>
                "Invalid config file. Make sure to call init_i18n! before this macro"@,
            Fault::UnreadableConfig => "IO error while reading config"@,
            Fault::BadMakePo => "Couldn't parse make_po"@,
            Fault::BadMakeMo => "Couldn't parse make_mo"@,
            Fault::BadWriteLoc => "Couldn't parse write_loc"@,
            Fault::DomainNotWritten => "Couldn't write domain"@,
            Fault::MakePoNotWritten => "Couldn't write po settings"@,
            Fault::MakeMoNotWritten => "Couldn't write mo settings"@,
            Fault::WriteLocNotWritten => "Couldn't write location settings"@,
            Fault::LangNotWritten => "Couldn't write lang"@,
            Fault::MessageNotWritten => "Couldn't write message to .pot"@,
            Fault::PluralNotWritten => "Couldn't write message to .pot (plural)"@,
            Fault::MergeFailed => "Couldn't update PO file"@,
            Fault::MergeNotRun => "Couldn't update PO file. Make sure msgmerge is installed."@,
            Fault::InitFailed => "Couldn't init PO file (gettext returned an error)"@,
            Fault::InitNotRun => "Couldn't init PO file. Make sure msginit is installed."@,
            Fault::FormatFailed => "Couldn't compile translations (gettext returned an error)"@,
            Fault::FormatNotRun =>
                "Couldn't compile translations. Make sure msgfmt is installed"@,
            Fault::NoMoDirectory => "Couldn't create MO directory"@,
        }
    }

    /// The sentence that a user sees.
    pub fn message(self) -> (res: String)
        ensures
            res@ == self.sentence(),
    {
        let text = match self {
            Fault::ExpectedCatalog => "Expected catalog",
            Fault::ExpectedMessage => "Expected a message to translate",
            Fault::EmptyExpression => "Unexpected empty expression",
            Fault::DomainNotStr => "Domain should be a str",
            Fault::ExpectedDomain => "Expected a translation domain (for instance \"myapp\")",
            Fault::ExpectedLanguage => "Expected a language identifier",
            Fault::NoManifestDir =>
                "CARGO_MANIFEST_DIR is not set. Please use cargo to compile your crate.",
            Fault::NoParentDir => "No parent dir",
            Fault::NoPackageName => "Please build with cargo",
            Fault::InvalidConfig =>
                "Invalid config file. Make sure to call init_i18n! before this macro",
            Fault::UnreadableConfig => "IO error while reading config",
            Fault::BadMakePo => "Couldn't parse make_po",
            Fault::BadMakeMo => "Couldn't parse make_mo",
            Fault::BadWriteLoc => "Couldn't parse write_loc",
            Fault::DomainNotWritten => "Couldn't write domain",
            Fault::MakePoNotWritten => "Couldn't write po settings",
            Fault::MakeMoNotWritten => "Couldn't write mo settings",
            Fault::WriteLocNotWritten => "Couldn't write location settings",
            Fault::LangNotWritten => "Couldn't write lang",
            Fault::MessageNotWritten => "Couldn't write message to .pot",
            Fault::PluralNotWritten => "Couldn't write message to .pot (plural)",
            Fault::MergeFailed => "Couldn't update PO file",
            Fault::MergeNotRun => "Couldn't update PO file. Make sure msgmerge is installed.",
            Fault::InitFailed => "Couldn't init PO file (gettext returned an error)",
            Fault::InitNotRun => "Couldn't init PO file. Make sure msginit is installed.",
            Fault::FormatFailed => "Couldn't compile translations (gettext returned an error)",
            Fault::FormatNotRun => "Couldn't compile translations. Make sure msgfmt is installed",
            Fault::NoMoDirectory => "Couldn't create MO directory",
        };
        text.to_owned()
    }
}

/// The reason for which the translation files could not be built or found.
#[derive(Debug, PartialEq, Eq)]
pub enum FileFault {
    /// A reason that names no file.
    Plain(Fault),
    /// There is no `.po` file at this path to compile.
    MissingPo(String),
    /// There is no `.mo` file at this path to embed.
    MissingMo(String),
}

/// The model of a [`FileFault`].
pub enum FileFaultModel {
    Plain(Fault),
    MissingPo(Seq<char>),
    MissingMo(Seq<char>),
}

impl View for FileFault {
    type V = FileFaultModel;

    open spec fn view(&self) -> FileFaultModel {
        match *self {
            FileFault::Plain(fault) => FileFaultModel::Plain(fault),
            FileFault::MissingPo(path) => FileFaultModel::MissingPo(path@),
            FileFault::MissingMo(path) => FileFaultModel::MissingMo(path@),
        }
    }
}

impl FileFaultModel {
    /// The sentence that a user sees.
    pub open spec fn sentence(self) -> Seq<char> {
        match self {
            FileFaultModel::Plain(fault) => fault.sentence(),
            FileFaultModel::MissingPo(path) => path
                + " doesn't exist. Make sure you didn't disabled po generation."@,
            FileFaultModel::MissingMo(path) => path
                + " doesn't exist. Make sure to call compile_i18n! before include_i18n!, and check that you didn't disabled mo compilation."@,
        }
    }
}

impl FileFault {
    /// The sentence that a user sees.
    pub fn message(&self) -> (res: String)
        ensures
            res@ == self@.sentence(),
    {
        match self {
            FileFault::Plain(fault) => fault.message(),
            FileFault::MissingPo(path) => join2(
                path.as_str(),
                " doesn't exist. Make sure you didn't disabled po generation.",
            ),
            FileFault::MissingMo(path) => join2(
                path.as_str(),
                " doesn't exist. Make sure to call compile_i18n! before include_i18n!, and check that you didn't disabled mo compilation.",
            ),
        }
    }
}

} // verus!
