//! Embedding compiled translations into a program.

use vstd::prelude::*;

use crate::code::codes;
use crate::code::comma;
use crate::code::method_call;
use crate::code::path_sep;
use crate::code::Code;
use crate::code::Fragment;
use crate::code::Spacing;
use crate::code::Writer;
use crate::fault::FileFault;
use crate::fault::FileFaultModel;
use crate::token::Delimiter;

verus! {

/// A language and the file for the compiled translations into it.
#[derive(Debug, PartialEq, Eq)]
pub struct MoFile {
    /// The language.
    pub lang: String,
    /// The path of the file.
    pub path: String,
    /// Whether there is a file at that path.
    pub exists: bool,
}

/// The model of a [`MoFile`].
pub struct Locale {
    pub lang: Seq<char>,
    pub path: Seq<char>,
    pub exists: bool,
}

impl View for MoFile {
    type V = Locale;

    open spec fn view(&self) -> Locale {
        Locale { lang: self.lang@, path: self.path@, exists: self.exists }
    }
}

/// The models of languages and their files.
pub open spec fn locales_of(files: Seq<MoFile>) -> Seq<Locale> {
    Seq::new(files.len(), |i: int| files[i]@)
}

/// The expression that reads the catalog of one language out of the bytes of its file.
pub open spec fn catalog_code(path: Seq<char>) -> Seq<Code> {
    path_sep(Spacing::Alone) + seq![Code::Word("gettext"@)] + path_sep(Spacing::Alone) + seq![
        Code::Word("Catalog"@),
    ] + path_sep(Spacing::Alone) + seq![
        Code::Word("parse"@),
        Code::Group(
            Delimiter::Parenthesis,
            seq![
                Code::Punct('&', Spacing::Alone),
                Code::Word("include_bytes"@),
                Code::Punct('!', Spacing::Alone),
                Code::Group(Delimiter::Parenthesis, seq![Code::Str(path)]),
                Code::Group(
                    Delimiter::Bracket,
                    seq![Code::Punct('.', Spacing::Joint), Code::Punct('.', Spacing::Alone)],
                ),
            ],
        ),
    ] + method_call("expect"@, seq![Code::Str("Error while loading catalog"@)])
}

/// A language and its catalog as a tuple, with a comma behind it.
pub open spec fn locale_code(locale: Locale) -> Seq<Code> {
    seq![
        Code::Group(
            Delimiter::Parenthesis,
            seq![Code::Str(locale.lang), comma()] + catalog_code(locale.path),
        ),
        comma(),
    ]
}

/// All languages and their catalogs, in order.
pub open spec fn locales_code(locales: Seq<Locale>) -> Seq<Code>
    decreases locales.len(),
{
    if locales.len() == 0 {
        Seq::empty()
    } else {
        locales_code(locales.drop_last()) + locale_code(locales.last())
    }
}

/// What a call of [`include_i18n`] is replaced with: the vector of all languages and their
/// catalogs.
pub open spec fn embedded_code(locales: Seq<Locale>) -> Seq<Code> {
    seq![
        Code::Group(
            Delimiter::Brace,
            seq![
                Code::Word("vec"@),
                Code::Punct('!', Spacing::Alone),
                Code::Group(Delimiter::Bracket, locales_code(locales)),
            ],
        ),
    ]
}

/// Whether the file for language `i` is missing, and none before it.
pub open spec fn first_missing(locales: Seq<Locale>, i: int) -> bool {
    &&& 0 <= i < locales.len()
    &&& !locales[i].exists
    &&& forall|j: int| 0 <= j < i ==> (#[trigger] locales[j]).exists
}

/// Whether the files for all languages are there.
pub open spec fn all_exist(locales: Seq<Locale>) -> bool {
    forall|i: int| 0 <= i < locales.len() ==> (#[trigger] locales[i]).exists
}

/// Writes a language and its catalog.
fn write_locale(out: &mut Writer, file: &MoFile)
    ensures
        final(out)@ == old(out)@ + locale_code(file@),
{
    let mut path = Writer::new();
    path.literal(file.path.as_str());
    assert(path@ =~= seq![Code::Str(file.path@)]);
    let mut whole = Writer::new();
    whole.punct('.', Spacing::Joint);
    whole.punct('.', Spacing::Alone);
    assert(whole@ =~= seq![
        Code::Punct('.', Spacing::Joint),
        Code::Punct('.', Spacing::Alone),
    ]);
    let mut bytes = Writer::new();
    bytes.punct('&', Spacing::Alone);
    bytes.word("include_bytes");
    bytes.punct('!', Spacing::Alone);
    bytes.group(Delimiter::Parenthesis, path);
    bytes.group(Delimiter::Bracket, whole);
    assert(bytes@ =~= seq![
        Code::Punct('&', Spacing::Alone),
        Code::Word("include_bytes"@),
        Code::Punct('!', Spacing::Alone),
        Code::Group(Delimiter::Parenthesis, path@),
        Code::Group(Delimiter::Bracket, whole@),
    ]);
    let mut failure = Writer::new();
    failure.literal("Error while loading catalog");
    assert(failure@ =~= seq![Code::Str("Error while loading catalog"@)]);

    let mut pair = Writer::new();
    pair.literal(file.lang.as_str());
    pair.comma();
    pair.path_sep(Spacing::Alone);
    pair.word("gettext");
    pair.path_sep(Spacing::Alone);
    pair.word("Catalog");
    pair.path_sep(Spacing::Alone);
    pair.word("parse");
    pair.group(Delimiter::Parenthesis, bytes);
    pair.method_call("expect", failure);
    assert(pair@ =~= seq![Code::Str(file.lang@), comma()] + catalog_code(file.path@));
    out.group(Delimiter::Parenthesis, pair);
    out.comma();
    assert(out@ =~= old(out)@ + locale_code(file@));
}

/// Embeds the compiled translations into each language. The languages of the configuration come
/// with their files, which [`mo_paths`](crate::paths::mo_paths) finds; the first that is missing is
/// what the call is refused for.
pub fn include_i18n(files: &[MoFile]) -> (res: Result<Vec<Fragment>, FileFault>)
    ensures
        res is Ok <==> all_exist(locales_of(files@)),
        res matches Ok(code) ==> codes(code@) == embedded_code(locales_of(files@)),
        res matches Err(fault) ==> exists|i: int|
            #![trigger locales_of(files@)[i]]
            first_missing(locales_of(files@), i) && fault@
                == FileFaultModel::MissingMo(locales_of(files@)[i].path),
{
    let ghost all = locales_of(files@);
    let mut locales = Writer::new();
    let mut i: usize = 0;
    while i < files.len()
        invariant
            i <= files@.len(),
            all == locales_of(files@),
            locales@ == locales_code(all.take(i as int)),
            forall|j: int| 0 <= j < i ==> (#[trigger] all[j]).exists,
        decreases files@.len() - i,
    {
        if !files[i].exists {
            assert(!all[i as int].exists);
            return Err(FileFault::MissingMo(files[i].path.clone()));
        }
        write_locale(&mut locales, &files[i]);
        assert(all.take(i + 1).drop_last() =~= all.take(i as int));
        i = i + 1;
    }
    assert(all.take(i as int) =~= all);
    let mut block = Writer::new();
    block.word("vec");
    block.punct('!', Spacing::Alone);
    block.group(Delimiter::Bracket, locales);
    assert(block@ =~= embedded_code(all)[0]->Group_1);
    let mut out = Writer::new();
    out.group(Delimiter::Brace, block);
    assert(out@ =~= embedded_code(all));
    Ok(out.fragments)
}

} // verus!
