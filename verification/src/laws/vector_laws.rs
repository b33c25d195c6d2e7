//! What is embedded for each language.

use vstd::prelude::*;

use crate::code::codes;
use crate::code::Code;
use crate::code::Fragment;
use crate::embed::first_missing;
use crate::embed::include_i18n;
use crate::embed::locale_code;
use crate::embed::locales_code;
use crate::embed::locales_of;
use crate::embed::Locale;
use crate::embed::MoFile;
use crate::fault::FileFault;
use crate::fault::FileFaultModel;
use crate::laws::spelling::alone;
use crate::laws::spelling::joint;
use crate::laws::spelling::paren;
use crate::laws::spelling::word;
use crate::token::Delimiter;

verus! {

/// The tuple of a language and its catalog:
/// `(LANG, ::gettext::Catalog::parse(&include_bytes!(PATH)[..]).expect("..."))`.
pub open spec fn catalog_tuple(lang: Seq<char>, path: Seq<char>) -> Code {
    paren(
        seq![
            Code::Str(lang),
            alone(','),
            joint(':'),
            alone(':'),
            word("gettext"),
            joint(':'),
            alone(':'),
            word("Catalog"),
            joint(':'),
            alone(':'),
            word("parse"),
            paren(
                seq![
                    alone('&'),
                    word("include_bytes"),
                    alone('!'),
                    paren(seq![Code::Str(path)]),
                    Code::Group(Delimiter::Bracket, seq![joint('.'), alone('.')]),
                ],
            ),
            alone('.'),
            word("expect"),
            paren(seq![Code::Str("Error while loading catalog"@)]),
        ],
    )
}

/// A language and its catalog are a tuple with a comma behind it.
proof fn lemma_tuple(locale: Locale)
    ensures
        locale_code(locale) == seq![catalog_tuple(locale.lang, locale.path), alone(',')],
{
    let inner = locale_code(locale)[0]->Group_1;
    let tuple = catalog_tuple(locale.lang, locale.path)->Group_1;
    let parse = inner[11]->Group_1;
    assert(parse =~= tuple[11]->Group_1);
    assert(inner =~= tuple);
    assert(locale_code(locale) =~= seq![catalog_tuple(locale.lang, locale.path), alone(',')]);
}

/// Each language has its tuple, in order.
proof fn lemma_tuples(locales: Seq<Locale>)
    ensures
        locales_code(locales).len() == 2 * locales.len(),
        forall|i: int|
            #![trigger locales[i]]
            0 <= i < locales.len() ==> {
                &&& locales_code(locales)[2 * i] == catalog_tuple(locales[i].lang, locales[i].path)
                &&& locales_code(locales)[2 * i + 1] == alone(',')
            },
    decreases locales.len(),
{
    if locales.len() > 0 {
        let front = locales.drop_last();
        lemma_tuples(front);
        lemma_tuple(locales.last());
        assert forall|i: int| #![trigger locales[i]] 0 <= i < locales.len() implies ({
            &&& locales_code(locales)[2 * i] == catalog_tuple(locales[i].lang, locales[i].path)
            &&& locales_code(locales)[2 * i + 1] == alone(',')
        }) by {
            if i < front.len() {
                assert(front[i] == locales[i]);
            }
        }
    }
}

/// Whether code is a vector with the given elements, in a block.
pub open spec fn vector_of(code: Seq<Code>, elements: Seq<Code>) -> bool {
    code == seq![
        Code::Group(
            Delimiter::Brace,
            seq![word("vec"), alone('!'), Code::Group(Delimiter::Bracket, elements)],
        ),
    ]
}

/// A call of [`include_i18n`] is replaced with a vector that has one tuple for each language, in
/// order: the name of the language, letter by letter, and the catalog in the bytes of its file, by its
/// whole path. Where files are missing, the call is refused, and the first of them is named.
pub proof fn law_vector_means(files: &[MoFile], res: Result<Vec<Fragment>, FileFault>)
    requires
        call_ensures(include_i18n, (files,), res),
    ensures
        (forall|i: int| 0 <= i < files@.len() ==> (#[trigger] files@[i]).exists) ==> {
            let elements = codes(res->Ok_0@)[0]->Group_1[2]->Group_1;
            &&& res is Ok
            &&& vector_of(codes(res->Ok_0@), elements)
            &&& elements.len() == 2 * files@.len()
            &&& forall|i: int|
                #![trigger files@[i]]
                0 <= i < files@.len() ==> {
                    &&& elements[2 * i] == catalog_tuple(files@[i].lang@, files@[i].path@)
                    &&& elements[2 * i + 1] == alone(',')
                }
        },
        forall|k: int|
            0 <= k < files@.len() && !(#[trigger] files@[k]).exists && (forall|i: int|
                0 <= i < k ==> (#[trigger] files@[i]).exists) ==> (res matches Err(
                FileFault::MissingMo(path),
            ) && path@ == files@[k].path@),
{
    let locales = locales_of(files@);
    lemma_tuples(locales);
    assert forall|i: int| 0 <= i < files@.len() implies #[trigger] locales[i] == files@[i]@ by {}
    if forall|i: int| 0 <= i < files@.len() ==> (#[trigger] files@[i]).exists {
        assert forall|i: int| 0 <= i < locales.len() implies (#[trigger] locales[i]).exists by {
            assert(files@[i].exists);
        }
        let elements = locales_code(locales);
        let code = codes(res->Ok_0@);
        assert(code[0]->Group_1[2]->Group_1 == elements);
        assert(code =~= seq![
            Code::Group(
                Delimiter::Brace,
                seq![word("vec"), alone('!'), Code::Group(Delimiter::Bracket, elements)],
            ),
        ]);
        assert forall|i: int| #![trigger files@[i]] 0 <= i < files@.len() implies ({
            &&& elements[2 * i] == catalog_tuple(files@[i].lang@, files@[i].path@)
            &&& elements[2 * i + 1] == alone(',')
        }) by {
            assert(locales[i] == files@[i]@);
        }
    }
    assert forall|k: int|
        0 <= k < files@.len() && !(#[trigger] files@[k]).exists && (forall|i: int|
            0 <= i < k ==> (#[trigger] files@[i]).exists) implies (res matches Err(
        FileFault::MissingMo(path),
    ) && path@ == files@[k].path@) by {
        assert(!locales[k].exists);
        if let Err(fault) = res {
            let j = choose|j: int|
                #![trigger locales[j]]
                first_missing(locales, j) && fault@
                    == FileFaultModel::MissingMo(locales[j].path);
            assert(locales[j] == files@[j]@);
            if j < k {
                assert(files@[j].exists);
            } else if k < j {
                assert(locales[k].exists);
            }
        }
    }
}

} // verus!
