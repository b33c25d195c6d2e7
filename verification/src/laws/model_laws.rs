//! The models that contracts speak of hold all that the values hold, and nothing else.

use vstd::prelude::*;

use crate::code::code;
use crate::code::codes;
use crate::code::Code;
use crate::code::Fragment;
use crate::code::Writer;
use crate::compile::jobs_of;
use crate::compile::Action;
use crate::compile::ActionModel;
use crate::compile::LangFiles;
use crate::config::Config;
use crate::embed::locales_of;
use crate::embed::MoFile;
use crate::fault::Fault;
use crate::fault::FileFault;
use crate::fault::FileFaultModel;
use crate::init::InitArgs;
use crate::macros::Expansion;
use crate::message::optional_location;
use crate::message::Location;
use crate::message::Message;
use crate::message::Printed;
use crate::paths::result_text;
use crate::paths::result_texts;
use crate::paths::Components;
use crate::paths::LangPaths;
use crate::paths::MoPath;
use crate::text::optional_text;
use crate::text::texts;
use crate::token::optional_tree;
use crate::token::optional_trees;
use crate::token::trees;
use crate::token::TokenKind;
use crate::token::TokenStream;
use crate::token::TokenTree;
use crate::token::TreeKind;

verus! {

/// A token keeps its handle, its kind and its text, and a group its delimiter.
pub proof fn law_token_model(t: TokenTree)
    ensures
        t@.handle == t.handle,
        match t.kind {
            TokenKind::Group(d, ts) => t@.kind == TreeKind::Group(d, trees(ts@)),
            TokenKind::Ident(s) => t@.kind == TreeKind::Ident(s@),
            TokenKind::Punct(c) => t@.kind == TreeKind::Punct(c),
            TokenKind::Literal(s) => t@.kind == TreeKind::Literal(s@),
        },
{
}

/// Tokens are kept one by one, in order.
pub proof fn law_tokens_model(ts: Seq<TokenTree>, more: Seq<TokenTree>, t: TokenTree)
    ensures
        trees(ts).len() == ts.len(),
        forall|i: int| 0 <= i < ts.len() ==> #[trigger] trees(ts)[i] == ts[i]@,
        trees(ts + more) == trees(ts) + trees(more),
        trees(seq![t]) == seq![t@],
{
    assert(trees(ts + more) =~= trees(ts) + trees(more));
    assert(trees(seq![t]) =~= seq![t@]);
}

/// What may be missing is kept if it is there.
pub proof fn law_optional_models(
    stream: TokenStream,
    token: TokenTree,
    text: String,
    location: Location,
)
    ensures
        optional_trees(Some(stream)) == Some(trees(stream@)),
        optional_trees(None) is None,
        optional_tree(Some(token)) == Some(token@),
        optional_tree(None) is None,
        optional_text(Some(text)) == Some(text@),
        optional_text(None) is None,
        optional_location(Some(location)) == Some(location@),
        optional_location(None) is None,
{
}

/// Texts are kept one by one, in order.
pub proof fn law_texts_model(s: Seq<String>, more: Seq<String>, text: String)
    ensures
        texts(s).len() == s.len(),
        forall|i: int| 0 <= i < s.len() ==> #[trigger] texts(s)[i] == s[i]@,
        texts(s + more) == texts(s) + texts(more),
        texts(seq![text]) == seq![text@],
{
    assert(texts(s + more) =~= texts(s) + texts(more));
    assert(texts(seq![text]) =~= seq![text@]);
}

/// A result is kept, be it a success or a failure.
pub proof fn law_result_models(text: String, path: Components, fault: Fault)
    ensures
        result_text(Ok(text)) == Ok::<Seq<char>, Fault>(text@),
        result_text(Err(fault)) == Err::<Seq<char>, Fault>(fault),
        result_texts(Ok(path)) == Ok::<Seq<Seq<char>>, Fault>(texts(path@)),
        result_texts(Err(fault)) == Err::<Seq<Seq<char>>, Fault>(fault),
{
}

/// A piece of code keeps its kind and its text.
pub proof fn law_code_model(f: Fragment)
    ensures
        match f {
            Fragment::Token(t) => code(f) == Code::Token(t@),
            Fragment::Group(d, fs) => code(f) == Code::Group(d, codes(fs@)),
            Fragment::Word(s) => code(f) == Code::Word(s@),
            Fragment::Punct(c, spacing) => code(f) == Code::Punct(c, spacing),
            Fragment::Str(s) => code(f) == Code::Str(s@),
        },
{
}

/// Pieces of code are kept one by one, in order.
pub proof fn law_codes_model(fs: Seq<Fragment>, more: Seq<Fragment>, f: Fragment, writer: Writer)
    ensures
        codes(fs).len() == fs.len(),
        forall|i: int| 0 <= i < fs.len() ==> #[trigger] codes(fs)[i] == code(fs[i]),
        codes(fs + more) == codes(fs) + codes(more),
        codes(seq![f]) == seq![code(f)],
        writer@ == codes(writer.fragments@),
{
    assert(codes(fs + more) =~= codes(fs) + codes(more));
    assert(codes(seq![f]) =~= seq![code(f)]);
}

/// A configuration keeps its domain, its settings and its languages.
pub proof fn law_config_model(config: Config)
    ensures
        config@.domain == config.domain@,
        config@.make_po == config.make_po,
        config@.make_mo == config.make_mo,
        config@.write_loc == config.write_loc,
        config@.langs == texts(config.langs@),
{
}

/// The argument that sets a crate up keeps its parts.
pub proof fn law_init_args_model(args: InitArgs)
    ensures
        args@.domain == args.domain@,
        args@.po == optional_trees(args.po),
        args@.mo == optional_trees(args.mo),
        args@.location == optional_trees(args.location),
        args@.langs == texts(args.langs@),
{
}

/// A message keeps its parts, and so does what its macro call comes to.
pub proof fn law_message_model(message: Message, expansion: Expansion)
    ensures
        message@.content == trees(message.content@),
        message@.plural == optional_trees(message.plural),
        message@.context == optional_tree(message.context),
        message@.format_args == trees(message.format_args@),
        message@.writable == message.writable,
        expansion@.message == expansion.message@,
        expansion@.code == codes(expansion.code@),
{
}

/// A place and printed texts keep their parts.
pub proof fn law_place_model(place: Location, printed: Printed)
    ensures
        place@.path == place.path@,
        place@.absolute == place.absolute,
        place@.line == place.line,
        printed@.content == printed.content@,
        printed@.plural == printed.plural@,
        printed@.context == printed.context@,
{
}

/// The files of a language keep their language, and their paths.
pub proof fn law_files_model(paths: LangPaths, mo: MoPath, files: LangFiles, file: MoFile)
    ensures
        paths@.lang == paths.lang@,
        paths@.po == texts(paths.po@),
        paths@.mo_dir == texts(paths.mo_dir@),
        paths@.mo == texts(paths.mo@),
        mo@.lang == mo.lang@,
        mo@.path == texts(mo.path@),
        files@.lang == files.lang@,
        files@.po == files.po@,
        files@.mo_dir == files.mo_dir@,
        files@.mo == files.mo@,
        file@.lang == file.lang@,
        file@.path == file.path@,
        file@.exists == file.exists,
{
}

/// The files of languages are kept one by one, in order.
pub proof fn law_file_lists_model(files: Seq<LangFiles>, mo_files: Seq<MoFile>)
    ensures
        jobs_of(files).len() == files.len(),
        forall|i: int| 0 <= i < files.len() ==> #[trigger] jobs_of(files)[i] == files[i]@,
        locales_of(mo_files).len() == mo_files.len(),
        forall|i: int|
            0 <= i < mo_files.len() ==> #[trigger] locales_of(mo_files)[i] == mo_files[i]@,
{
}

/// An action keeps its kind, its path, and its program with all arguments.
pub proof fn law_action_model(action: Action)
    ensures
        match action {
            Action::FindFile(path) => action@ == ActionModel::FindFile(path@),
            Action::FindAny(path) => action@ == ActionModel::FindAny(path@),
            Action::MakeDir(path) => action@ == ActionModel::MakeDir(path@),
            Action::Run { say, program, args } => action@ == (ActionModel::Run {
                say: optional_text(say),
                program: program@,
                args: texts(args@),
            }),
            Action::Finish => action@ == ActionModel::Finish,
        },
{
}

/// A reason keeps its kind and its path.
pub proof fn law_fault_model(fault: FileFault)
    ensures
        match fault {
            FileFault::Plain(plain) => fault@ == FileFaultModel::Plain(plain),
            FileFault::MissingPo(path) => fault@ == FileFaultModel::MissingPo(path@),
            FileFault::MissingMo(path) => fault@ == FileFaultModel::MissingMo(path@),
        },
{
}

} // verus!
