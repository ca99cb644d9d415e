use vstd::prelude::*;
use vstd::string::*;
use vstd::utf8::encode_utf8;
use blake2::Blake2b;
use blake2::Digest;
use blake2::digest::consts::U8;
use crate::code::Const;
use crate::code::ConstView;
use crate::code::Instr;
use crate::code::InstrView;
use crate::code::const_views;
use crate::code::instr_views;
use crate::compiler::Compiler;
use crate::compiler::Pool;
use crate::compiler::compile_program;
use crate::compiler::distinct;
use crate::compiler::sound::lemma_program_sound;
use crate::compiler::valid::fits;
use crate::compiler::valid::pool_ok;
use crate::compiler::valid::sound;
use crate::compiler::valid::valid_code;
pub use crate::error::CheckErrorKind;
pub use crate::error::CompileErrorKind;
pub use crate::error::ParseErrorKind;
use crate::error::ParseErrorView;
use crate::float::Float;
use crate::lexer::grammar::readable;
use crate::lexer::grammar::source_tokens;
use crate::lexer::try_lex;
use crate::parser::grammar::p_program;
use crate::parser::parse;
use crate::semck::SemChecker;
use crate::semck::rewrite;
use crate::ast::Node;
use crate::ast::NodeView;
use crate::span::Spanned;
use crate::span::nodes_of;
use crate::span::spanned_views;
use crate::token::TokenView;

verus! {

/// Why a source text could not be made into a module.
#[derive(Debug, PartialEq, Eq)]
pub enum ModuleErrorKind {
    /// An integer literal does not fit, or a float literal was given no value.
    Unreadable,
    ParseError(ParseErrorKind),
    CheckError(CheckErrorKind),
    CompileError(CompileErrorKind),
}

/// The mathematical value of a [`ModuleErrorKind`].
pub enum ModuleErrorView {
    Unreadable,
    ParseError(ParseErrorView),
    CheckError(CheckErrorKind),
    CompileError(CompileErrorKind),
}

impl View for ModuleErrorKind {
    type V = ModuleErrorView;

    open spec fn view(&self) -> ModuleErrorView {
        match self {
            ModuleErrorKind::Unreadable => ModuleErrorView::Unreadable,
            ModuleErrorKind::ParseError(e) => ModuleErrorView::ParseError(e@),
            ModuleErrorKind::CheckError(e) => ModuleErrorView::CheckError(*e),
            ModuleErrorKind::CompileError(e) => ModuleErrorView::CompileError(*e),
        }
    }
}

/// The text that names an error.
pub open spec fn error_text(e: ModuleErrorView) -> Seq<char> {
    match e {
        ModuleErrorView::Unreadable => "Unreadable"@,
        ModuleErrorView::ParseError(p) => match p {
            ParseErrorView::UnexpectedToken(_) => "ParseError(UnexpectedToken)"@,
            ParseErrorView::UnexpectedEOF => "ParseError(UnexpectedEOF)"@,
            ParseErrorView::UnknownBinaryOperator => "ParseError(UnknownBinaryOperator)"@,
            ParseErrorView::UnknownUnaryOperator => "ParseError(UnknownUnaryOperator)"@,
            ParseErrorView::UnusedPlaces => "ParseError(UnusedPlaces)"@,
        },
        ModuleErrorView::CheckError(c) => match c {
            CheckErrorKind::NotInLoop => "CheckError(NotInLoop)"@,
            CheckErrorKind::MissingIf => "CheckError(MissingIf)"@,
            CheckErrorKind::NotPlace => "CheckError(NotPlace)"@,
        },
        ModuleErrorView::CompileError(c) => match c {
            CompileErrorKind::MultiPlace => "CompileError(MultiPlace)"@,
            CompileErrorKind::MultiDecl => "CompileError(MultiDecl)"@,
            CompileErrorKind::EmptyChain => "CompileError(EmptyChain)"@,
        },
    }
}

impl ModuleErrorKind {
    /// The text that names the error.
    pub fn describe(&self) -> (s: String)
        ensures
            s@ == error_text(self@),
    {
        let text = match self {
            ModuleErrorKind::Unreadable => "Unreadable",
            ModuleErrorKind::ParseError(p) => match p {
                ParseErrorKind::UnexpectedToken(_) => "ParseError(UnexpectedToken)",
                ParseErrorKind::UnexpectedEOF => "ParseError(UnexpectedEOF)",
                ParseErrorKind::UnknownBinaryOperator => "ParseError(UnknownBinaryOperator)",
                ParseErrorKind::UnknownUnaryOperator => "ParseError(UnknownUnaryOperator)",
                ParseErrorKind::UnusedPlaces => "ParseError(UnusedPlaces)",
            },
            ModuleErrorKind::CheckError(c) => match c {
                CheckErrorKind::NotInLoop => "CheckError(NotInLoop)",
                CheckErrorKind::MissingIf => "CheckError(MissingIf)",
                CheckErrorKind::NotPlace => "CheckError(NotPlace)",
            },
            ModuleErrorKind::CompileError(c) => match c {
                CompileErrorKind::MultiPlace => "CompileError(MultiPlace)",
                CompileErrorKind::MultiDecl => "CompileError(MultiDecl)",
                CompileErrorKind::EmptyChain => "CompileError(EmptyChain)",
            },
        };
        String::from_str(text)
    }
}

/// The eight-byte BLAKE2b digest of a sequence of bytes.
pub uninterp spec fn blake2b_64(bytes: Seq<u8>) -> Seq<u8>;

/// `Blake2b::<U8>::digest` of the blake2 crate: the result is the BLAKE2b digest of the
/// bytes with an output of eight bytes, a function of the bytes alone.
#[verifier::external_body]
fn hash_bytes(bytes: &Vec<u8>) -> (hash: Vec<u8>)
    ensures
        hash@ == blake2b_64(bytes@),
        hash@.len() == 8,
{
    Blake2b::<U8>::digest(bytes).to_vec()
}

/// The version of the module format.
pub open spec fn version_bytes() -> Seq<u8> {
    seq![0u8, 0u8, 1u8, 0u8]
}

/// The digest that marks a source text.
pub open spec fn source_hash(source: Seq<char>) -> Seq<u8> {
    blake2b_64(encode_utf8(source))
}

/// The version of the module format.
pub fn version() -> (v: Vec<u8>)
    ensures
        v@ == version_bytes(),
{
    let mut v: Vec<u8> = Vec::new();
    v.push(0);
    v.push(0);
    v.push(1);
    v.push(0);
    assert(v@ =~= version_bytes());
    v
}

/// The digest of a sequence of bytes: what marks a source text, and what a host that
/// keeps modules may mark the stages of its work with.
pub fn digest(bytes: &Vec<u8>) -> (hash: Vec<u8>)
    ensures
        hash@ == blake2b_64(bytes@),
        hash@.len() == 8,
{
    hash_bytes(bytes)
}

/// The digest that marks a source text.
pub fn hash_source(source: &str) -> (hash: Vec<u8>)
    ensures
        hash@ == source_hash(source@),
        hash@.len() == 8,
{
    let bytes = source.as_bytes_vec();
    digest(&bytes)
}

/// Whether two byte strings are the same.
pub fn same_bytes(a: &Vec<u8>, b: &Vec<u8>) -> (r: bool)
    ensures
        r == (a@ == b@),
{
    if a.len() != b.len() {
        return false;
    }
    let mut i: usize = 0;
    while i < a.len()
        invariant
            a@.len() == b@.len(),
            i <= a@.len(),
            forall|k: int| 0 <= k < i ==> a@[k] == b@[k],
        decreases a.len() - i,
    {
        if a[i] != b[i] {
            return false;
        }
        i = i + 1;
    }
    assert(a@ =~= b@);
    true
}

/// A compiled unit of code.
#[derive(Debug, PartialEq, Eq)]
pub struct Module {
    /// The version of the format that the module was made in.
    pub version: Vec<u8>,
    /// The digest of the source text that the module was made from.
    pub file_hash: Vec<u8>,
    pub name: String,
    /// The top-level instructions.
    pub code: Vec<Instr>,
    /// The body of each function, by its index.
    pub funcs: Vec<Instr>,
    /// The constant pool.
    pub consts: Vec<Const>,
}

/// The mathematical value of a [`Module`].
pub struct ModuleView {
    pub version: Seq<u8>,
    pub file_hash: Seq<u8>,
    pub name: Seq<char>,
    pub code: Seq<InstrView>,
    pub funcs: Seq<InstrView>,
    pub consts: Seq<ConstView>,
}

impl View for Module {
    type V = ModuleView;

    open spec fn view(&self) -> ModuleView {
        ModuleView {
            version: self.version@,
            file_hash: self.file_hash@,
            name: self.name@,
            code: instr_views(self.code),
            funcs: instr_views(self.funcs),
            consts: const_views(self.consts@),
        }
    }
}

/// Whether a module holds what its code names: every constant and every function
/// that its instructions and the bodies of its functions name.
pub open spec fn module_ok(m: ModuleView) -> bool {
    valid_code(m.code, m.consts.len(), m.funcs.len()) && valid_code(
        m.funcs,
        m.consts.len(),
        m.funcs.len(),
    )
}

/// The tree that a token stream stands for, checked and rewritten.
pub open spec fn checked_tree(tokens: Seq<TokenView>) -> Result<NodeView, ModuleErrorView> {
    match p_program(tokens) {
        Err(e) => Err(ModuleErrorView::ParseError(e)),
        Ok(tree) => match rewrite(tree, false) {
            Err(e) => Err(ModuleErrorView::CheckError(e)),
            Ok(checked) => Ok(checked),
        },
    }
}

/// The module that a checked tree is lowered to, with the name it is given and the
/// mark of the source text that the tree was read from.
pub open spec fn lowered(name: Seq<char>, source: Seq<char>, tree: NodeView) -> Result<
    ModuleView,
    ModuleErrorView,
> {
    match compile_program(tree, Pool { consts: Seq::empty(), funcs: Seq::empty() }) {
        Err(e) => Err(ModuleErrorView::CompileError(e)),
        Ok(out) => Ok(
            ModuleView {
                version: version_bytes(),
                file_hash: source_hash(source),
                name,
                code: out.code,
                funcs: out.pool.funcs,
                consts: out.pool.consts,
            },
        ),
    }
}

/// The module that a source text compiles to: its tokens are parsed, the tree is
/// checked and rewritten, and the result is lowered to instructions.
pub open spec fn build(name: Seq<char>, source: Seq<char>, floats: Seq<Float>) -> Result<
    ModuleView,
    ModuleErrorView,
> {
    if !readable(source, floats) {
        Err(ModuleErrorView::Unreadable)
    } else {
        match checked_tree(nodes_of(source_tokens(source, floats))) {
            Err(e) => Err(e),
            Ok(tree) => lowered(name, source, tree),
        }
    }
}

/// Parses a token stream, checks the tree and rewrites it.
pub fn check_tokens(tokens: Vec<Spanned>) -> (r: Result<Node, ModuleErrorKind>)
    ensures
        match (checked_tree(nodes_of(spanned_views(tokens@))), r) {
            (Ok(v), Ok(tree)) => tree@ == v,
            (Err(e), Err(k)) => k@ == e,
            _ => false,
        },
{
    let mut tree = match parse(tokens) {
        Ok(tree) => tree,
        Err(e) => {
            return Err(ModuleErrorKind::ParseError(e));
        },
    };
    let mut checker = SemChecker::new();
    match checker.check(&mut tree) {
        Ok(()) => Ok(tree),
        Err(e) => Err(ModuleErrorKind::CheckError(e)),
    }
}

impl Module {
    /// Compiles a source text into a module with the given name. The float literals of
    /// the text take their values from `floats`, in order.
    ///
    /// The constant pool of the module holds no value twice, and holds every constant
    /// that the code names, as the function table holds every function.
    pub fn new(name: &str, source: &str, floats: &Vec<Float>) -> (r: Result<
        Module,
        ModuleErrorKind,
    >)
        ensures
            match (build(name@, source@, floats@), r) {
                (Ok(v), Ok(m)) => m@ == v && distinct(m@.consts) && module_ok(m@),
                (Err(e), Err(k)) => k@ == e,
                _ => false,
            },
    {
        let tokens = match try_lex(source, floats) {
            Some(tokens) => tokens,
            None => {
                return Err(ModuleErrorKind::Unreadable);
            },
        };
        let tree = match check_tokens(tokens) {
            Ok(tree) => tree,
            Err(e) => {
                return Err(e);
            },
        };
        Module::from_tree(name, source, &tree)
    }

    /// Lowers a checked tree to a module with the given name, marked with the digest of
    /// the source text that the tree was read from.
    ///
    /// The constant pool of the module holds no value twice, and holds every constant
    /// that the code names, as the function table holds every function.
    pub fn from_tree(name: &str, source: &str, tree: &Node) -> (r: Result<Module, ModuleErrorKind>)
        ensures
            match (lowered(name@, source@, tree@), r) {
                (Ok(v), Ok(m)) => m@ == v && distinct(m@.consts) && module_ok(m@),
                (Err(e), Err(k)) => k@ == e,
                _ => false,
            },
    {
        let mut compiler = Compiler::new();
        match compiler.compile(tree) {
            Ok(()) => {},
            Err(e) => {
                return Err(ModuleErrorKind::CompileError(e));
            },
        }
        let consts = compiler.consts.len();
        let funcs = compiler.funcs.len();
        proof {
            let start = Pool { consts: Seq::empty(), funcs: Seq::empty() };
            lemma_program_sound(tree@, start);
            let e = compile_program(tree@, start)->Ok_0;
            assert(pool_ok(start));
            assert(e.pool == compiler.pool());
            assert(e.code == compiler.code());
            assert(const_views(compiler.consts@).len() == consts);
            assert(instr_views(compiler.funcs).len() == funcs);
            assert(fits(e.pool));
            assert(sound(start, e));
        }
        Ok(
            Module {
                version: version(),
                file_hash: hash_source(source),
                name: String::from_str(name),
                code: compiler.block,
                funcs: compiler.funcs,
                consts: compiler.consts,
            },
        )
    }

    /// Whether the module was made from the given source text, in the format of this
    /// version: whether it can stand for the text without compiling it again.
    pub fn is_current(&self, source: &str) -> (r: bool)
        ensures
            r == (self@.version == version_bytes() && self@.file_hash == source_hash(source@)),
    {
        let v = version();
        let hash = hash_source(source);
        same_bytes(&self.version, &v) && same_bytes(&self.file_hash, &hash)
    }

    /// Compiles a source text that belongs to no file.
    pub fn from_string(chunk: &str, floats: &Vec<Float>) -> (r: Result<Module, ModuleErrorKind>)
        ensures
            match (build("_anon"@, chunk@, floats@), r) {
                (Ok(v), Ok(m)) => m@ == v && distinct(m@.consts) && module_ok(m@),
                (Err(e), Err(k)) => k@ == e,
                _ => false,
            },
    {
        Module::new("_anon", chunk, floats)
    }
}

} // verus!
