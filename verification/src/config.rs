//! Configuration data: the custom-player table with its path predicates, and
//! the reader-command syntax used to describe auxiliary demuxers.
//!
//! Loading and saving the configuration file is I/O the embedding application
//! performs; the types and the parsing and matching rules live here.

use crate::strutil::{push_char, str_eq};
use vstd::prelude::*;
use vstd::string::StrSliceExecFns;
use vstd::string::StringExecFns;

verus! {

/// The default volume of a fresh configuration.
pub fn default_volume() -> (r: u8)
    ensures
        r == 50,
{
    50
}

/// The default playback speed of a fresh configuration, in milliunits
/// (one thousand is normal speed).
pub fn default_speed() -> (r: i64)
    ensures
        r == 1000,
{
    1000
}

/// A color theme: twelve RGB triples.
pub type ThemeColors = [[u8; 3]; 12];

/// The persisted application configuration, as the library's logic reads it.
/// The playback speed is a milliunit count.
pub struct Config {
    pub music_folder: Option<String>,
    /// These should all wrap the player, but may be different demuxers.
    pub custom_players: Vec<CustomPlayerEntry>,
    pub volume: u8,
    pub speed_millis: i64,
    pub video: bool,
    pub theme: Option<ThemeColors>,
    /// Follow symbolic links when loading files from a directory.
    pub follow_symlinks: bool,
}

impl Default for Config {
    fn default() -> (r: Self)
        ensures
            r.music_folder is None,
            r.custom_players@.len() == 0,
            r.volume == 50,
            r.speed_millis == 1000,
            !r.video,
            r.theme is None,
            !r.follow_symlinks,
    {
        Config {
            music_folder: None,
            custom_players: Vec::new(),
            volume: default_volume(),
            speed_millis: default_speed(),
            video: false,
            theme: None,
            follow_symlinks: false,
        }
    }
}

/// One argument of a reader command: literal text, or the placeholder the
/// song path is substituted for.
#[derive(Debug)]
pub enum ArgType {
    Custom(String),
    SongPath,
}

/// The display text of an argument: the literal, or the `{}` placeholder.
pub open spec fn arg_text(a: ArgType) -> Seq<char> {
    match a {
        ArgType::Custom(s) => s@,
        ArgType::SongPath => "{}"@,
    }
}

impl ArgType {
    /// Render the argument as it is written in a command line.
    pub fn to_string(&self) -> (r: String)
        ensures
            r@ == arg_text(*self),
    {
        match self {
            ArgType::Custom(s) => s.clone(),
            ArgType::SongPath => "{}".to_owned(),
        }
    }
}

/// Why parsing a reader command failed.
#[derive(Debug)]
pub enum CommandParseErrorKind {
    /// A piece was expected, but the input ended.
    ExpectedButEnd { what: &'static str },
}

/// A reader-command parse error.
#[derive(Debug)]
pub struct CommandParseError {
    pub kind: CommandParseErrorKind,
}

impl CommandParseError {
    /// The error rendered for display.
    pub fn message(&self) -> (r: String)
        ensures
            ({
                let CommandParseErrorKind::ExpectedButEnd { what } = self.kind;
                r@ == "parse error: Expected "@ + what@ + ", but reached end."@
            }),
    {
        let mut r = String::new();
        r.append("parse error: Expected ");
        match &self.kind {
            CommandParseErrorKind::ExpectedButEnd { what } => {
                r.append(what);
            },
        }
        r.append(", but reached end.");
        r
    }
}

/// A reader command: the executable name and its arguments.
#[derive(Debug)]
pub struct Command {
    pub name: String,
    pub args: Vec<ArgType>,
}

impl Default for Command {
    fn default() -> (r: Self)
        ensures
            r.name@ == Seq::<char>::empty(),
            r.args@.len() == 0,
    {
        Command { name: String::new(), args: Vec::new() }
    }
}

/// The rendered arguments, each followed by one space.
pub open spec fn args_text(args: Seq<ArgType>) -> Seq<char>
    decreases args.len(),
{
    if args.len() == 0 {
        seq![]
    } else {
        args_text(args.drop_last()) + arg_text(args.last()) + seq![' ']
    }
}

/// An ASCII whitespace character, as the command syntax knows it.
pub open spec fn is_ws(c: char) -> bool {
    c == ' ' || c == '\t' || c == '\n' || c == '\r' || c as u32 == 0x0b || c as u32 == 0x0c
}

/// The length of the leading run of non-whitespace characters.
pub open spec fn tok_len(t: Seq<char>) -> nat
    decreases t.len(),
{
    if t.len() > 0 && !is_ws(t[0]) {
        (1 + tok_len(t.drop_first())) as nat
    } else {
        0
    }
}

/// The whitespace-separated tokens of a command line, in order.
pub open spec fn tokens(s: Seq<char>) -> Seq<Seq<char>>
    decreases s.len(),
{
    if s.len() == 0 {
        seq![]
    } else if is_ws(s[0]) {
        tokens(s.drop_first())
    } else {
        let t = tok_len(s) as int;
        if t >= s.len() {
            seq![s]
        } else {
            seq![s.take(t)] + tokens(s.skip(t))
        }
    }
}

/// Leading whitespace does not change the token list.
proof fn lemma_tokens_skip_ws(s: Seq<char>, w: int)
    requires
        0 <= w <= s.len(),
        forall|q: int| 0 <= q < w ==> is_ws(#[trigger] s[q]),
    ensures
        tokens(s) == tokens(s.skip(w)),
    decreases w,
{
    if w == 0 {
        assert(s.skip(0) =~= s);
    } else {
        assert(is_ws(s[0]));
        assert(s.drop_first() =~= s.skip(1));
        assert(forall|q: int| 0 <= q < w - 1 ==> is_ws(#[trigger] s.skip(1)[q]));
        lemma_tokens_skip_ws(s.skip(1), w - 1);
        assert(s.skip(1).skip(w - 1) =~= s.skip(w));
    }
}

/// A scan that saw non-whitespace up to `k` and whitespace (or the end) at
/// `k` pins down `tok_len`.
proof fn lemma_tok_len_is(t: Seq<char>, k: int)
    requires
        0 <= k <= t.len(),
        forall|j: int| 0 <= j < k ==> !is_ws(#[trigger] t[j]),
        k < t.len() ==> is_ws(t[k]),
    ensures
        tok_len(t) == k,
    decreases t.len(),
{
    if k == 0 {
    } else {
        assert(!is_ws(t[0]));
        assert(forall|j: int| 0 <= j < k - 1 ==> t.drop_first()[j] == t[j + 1] && !is_ws(t[j + 1]));
        lemma_tok_len_is(t.drop_first(), k - 1);
    }
}

/// The views of a vector of token strings.
pub open spec fn token_views(ts: Seq<String>) -> Seq<Seq<char>> {
    ts.map(|k: int, s: String| s@)
}

/// Collect the whitespace-separated tokens of `s` from position `pos` on.
fn collect_tokens(s: &str, pos: usize) -> (toks: Vec<String>)
    requires
        pos <= s@.len(),
    ensures
        token_views(toks@) == tokens(s@.skip(pos as int)),
    decreases s@.len() - pos,
{
    let len: usize = s.unicode_len();
    let ghost rest = s@.skip(pos as int);
    let mut i: usize = pos;
    while i < len
        invariant_except_break
            pos <= i <= len,
            len == s@.len(),
            forall|q: int| pos <= q < i ==> is_ws(#[trigger] s@[q]),
        ensures
            pos <= i <= len,
            len == s@.len(),
            forall|q: int| pos <= q < i ==> is_ws(#[trigger] s@[q]),
            i < len ==> !is_ws(s@[i as int]),
        decreases len - i,
    {
        let c: char = s.get_char(i);
        if !(c == ' ' || c == '\t' || c == '\n' || c == '\r' || c as u32 == 0x0b || c as u32
            == 0x0c) {
            break ;
        }
        i = i + 1;
    }
    proof {
        assert(forall|q: int| 0 <= q < i - pos ==> rest[q] == s@[pos + q]);
        lemma_tokens_skip_ws(rest, i - pos);
        assert(rest.skip(i - pos) =~= s@.skip(i as int));
    }
    if i >= len {
        proof {
            assert(s@.skip(i as int) =~= Seq::<char>::empty());
            assert(token_views(Seq::<String>::empty()) =~= tokens(rest));
        }
        return Vec::new();
    }
    let ghost at_tok = s@.skip(i as int);
    let mut j: usize = i;
    while j < len
        invariant_except_break
            i <= j <= len,
            i < len,
            len == s@.len(),
            !is_ws(s@[i as int]),
            forall|q: int| i <= q < j ==> !is_ws(#[trigger] s@[q]),
        ensures
            i <= j <= len,
            i < len,
            len == s@.len(),
            !is_ws(s@[i as int]),
            forall|q: int| i <= q < j ==> !is_ws(#[trigger] s@[q]),
            j < len ==> is_ws(s@[j as int]),
            i < j,
        decreases len - j,
    {
        let c: char = s.get_char(j);
        if c == ' ' || c == '\t' || c == '\n' || c == '\r' || c as u32 == 0x0b || c as u32
            == 0x0c {
            break ;
        }
        j = j + 1;
    }
    proof {
        assert(forall|q: int| 0 <= q < j - i ==> at_tok[q] == s@[i + q]);
        if j < len {
            assert(at_tok[(j - i) as int] == s@[j as int]);
        }
        lemma_tok_len_is(at_tok, j - i);
        assert(at_tok.take((j - i) as int) =~= s@.subrange(i as int, j as int));
    }
    let tok: String = s.substring_char(i, j).to_owned();
    let rest_toks = collect_tokens(s, j);
    let mut toks = rest_toks;
    toks.insert(0, tok);
    proof {
        assert(!is_ws(at_tok[0]));
        if j == len {
            assert(at_tok.take((j - i) as int) =~= at_tok);
            assert(tokens(at_tok) == seq![at_tok]);
            assert(s@.skip(j as int) =~= Seq::<char>::empty());
            assert(tokens(s@.skip(j as int)) == Seq::<Seq<char>>::empty());
        } else {
            assert(at_tok.skip((j - i) as int) =~= s@.skip(j as int));
            assert(tokens(at_tok) == seq![at_tok.take((j - i) as int)] + tokens(s@.skip(j as int)));
        }
        assert forall|k: int|
            0 <= k < toks@.len() implies token_views(toks@)[k] == toks@[k]@ by {}
        assert forall|k: int|
            0 <= k < rest_toks@.len() implies token_views(rest_toks@)[k] == rest_toks@[k]@ by {}
        assert(toks@ == rest_toks@.insert(0, tok));
        assert(token_views(toks@) =~= tokens(rest));
    }
    toks
}

/// Whether an argument is what a token parses to: the placeholder token
/// `{}` gives the song-path argument, anything else its literal text.
pub open spec fn arg_matches(a: ArgType, tok: Seq<char>) -> bool {
    if tok == "{}"@ {
        a is SongPath
    } else {
        a matches ArgType::Custom(s) && s@ == tok
    }
}

impl Command {
    /// Render the command as a line: the name and each argument, every piece
    /// followed by one space.
    pub fn to_string(&self) -> (r: String)
        ensures
            r@ == self.name@ + seq![' '] + args_text(self.args@),
    {
        let mut r = self.name.clone();
        push_char(&mut r, ' ');
        let ghost head = r@;
        let mut i: usize = 0;
        proof {
            assert(args_text(self.args@.take(0)) =~= Seq::<char>::empty());
        }
        while i < self.args.len()
            invariant
                i <= self.args@.len(),
                head == self.name@ + seq![' '],
                r@ == head + args_text(self.args@.take(i as int)),
            decreases self.args@.len() - i,
        {
            let text = self.args[i].to_string();
            r.append(text.as_str());
            push_char(&mut r, ' ');
            proof {
                assert(self.args@.take(i + 1).drop_last() =~= self.args@.take(i as int));
                assert(self.args@.take(i + 1).last() == self.args@[i as int]);
                assert(r@ =~= head + args_text(self.args@.take(i + 1)));
            }
            i = i + 1;
        }
        proof {
            assert(self.args@.take(self.args@.len() as int) =~= self.args@);
        }
        r
    }

    /// Parse a command line: the first whitespace-separated token names the
    /// command, each further token is an argument (`{}` standing for the song
    /// path). A line with no token at all is an error.
    pub fn from_str(src: &str) -> (r: Result<Command, CommandParseError>)
        ensures
            r is Err <==> tokens(src@).len() == 0,
            r matches Err(e) ==> e.kind matches CommandParseErrorKind::ExpectedButEnd { what }
                && what@ == "command"@,
            r matches Ok(c) ==> {
                let toks = tokens(src@);
                &&& c.name@ == toks[0]
                &&& c.args@.len() == toks.len() - 1
                &&& forall|k: int|
                    0 <= k < c.args@.len() ==> arg_matches(#[trigger] c.args@[k], toks[k + 1])
            },
    {
        let toks = collect_tokens(src, 0);
        proof {
            assert(src@.skip(0) =~= src@);
        }
        if toks.len() == 0 {
            return Err(
                CommandParseError { kind: CommandParseErrorKind::ExpectedButEnd { what: "command" } },
            );
        }
        let ghost tviews = tokens(src@);
        let name: String = toks[0].clone();
        let mut args: Vec<ArgType> = Vec::new();
        let mut i: usize = 1;
        while i < toks.len()
            invariant
                1 <= i <= toks@.len(),
                tviews == token_views(toks@),
                args@.len() == i - 1,
                forall|k: int| 0 <= k < args@.len() ==> arg_matches(#[trigger] args@[k], tviews[k + 1]),
            decreases toks@.len() - i,
        {
            let tok = &toks[i];
            proof {
                assert(token_views(toks@)[i as int] == toks@[i as int]@);
            }
            if str_eq(tok.as_str(), "{}") {
                args.push(ArgType::SongPath);
            } else {
                args.push(ArgType::Custom(tok.clone()));
            }
            i = i + 1;
        }
        proof {
            assert(token_views(toks@)[0] == toks@[0]@);
            assert(token_views(toks@).len() == toks@.len());
        }
        Ok(Command { name, args })
    }
}

/// The file-name part of a path: what follows the last slash (empty when the
/// path ends in a slash or is empty).
pub open spec fn after_last_slash(p: Seq<char>) -> Seq<char>
    decreases p.len(),
{
    if p.len() == 0 {
        p
    } else if p.last() == '/' {
        Seq::empty()
    } else {
        after_last_slash(p.drop_last()).push(p.last())
    }
}

/// The extension of a file name: what follows the last dot, provided the dot
/// is neither the first character (a hidden file has no extension) nor
/// missing.
pub open spec fn ext_of(name: Seq<char>) -> Option<Seq<char>>
    decreases name.len(),
{
    if name.len() == 0 {
        None
    } else if name.last() == '.' {
        if name.len() >= 2 {
            Some(Seq::empty())
        } else {
            None
        }
    } else {
        match ext_of(name.drop_last()) {
            Some(e) => Some(e.push(name.last())),
            None => None,
        }
    }
}

/// `pre` is a prefix of `s`.
pub open spec fn starts_with(s: Seq<char>, pre: Seq<char>) -> bool {
    pre.len() <= s.len() && s.take(pre.len() as int) == pre
}

/// A rule matching a file path.
pub enum Predicate {
    /// The file name begins with this fragment.
    BeginsWith(String),
    /// The file name has exactly this extension.
    HasExt(String),
}

/// The rule kinds, for listing and editing rules by shape.
#[derive(Clone, Copy, PartialEq, Eq, Debug, Structural)]
pub enum PredicateKind {
    BeginsWith,
    HasExt,
}

impl PredicateKind {
    /// The label shown when picking a rule shape.
    pub fn label(&self) -> (r: &'static str)
        ensures
            ({
                match self {
                    PredicateKind::BeginsWith => r@ == "Begins with..."@,
                    PredicateKind::HasExt => r@ == "Has extension..."@,
                }
            }),
    {
        match self {
            PredicateKind::BeginsWith => "Begins with...",
            PredicateKind::HasExt => "Has extension...",
        }
    }
}

/// What a predicate says of a path.
pub open spec fn pred_matches(pred: Predicate, path: Seq<char>) -> bool {
    match pred {
        Predicate::BeginsWith(fragment) => starts_with(after_last_slash(path), fragment@),
        Predicate::HasExt(ext) => ext_of(after_last_slash(path)) == Some(ext@),
    }
}

/// A scan that saw no slash after position `k` pins down the file name.
proof fn lemma_after_last_slash_is(p: Seq<char>, k: int)
    requires
        -1 <= k < p.len(),
        k >= 0 ==> p[k] == '/',
        forall|j: int| k < j < p.len() ==> p[j] != '/',
    ensures
        after_last_slash(p) == p.skip(k + 1),
    decreases p.len(),
{
    if p.len() == 0 {
        assert(p.skip(0) =~= p);
    } else if k == p.len() - 1 {
        assert(p.last() == '/');
        assert(p.skip(k + 1) =~= Seq::<char>::empty());
    } else {
        assert(p.last() != '/');
        assert(p.drop_last() =~= p.take(p.len() - 1));
        lemma_after_last_slash_is(p.drop_last(), k);
        assert(p.drop_last().skip(k + 1).push(p.last()) =~= p.skip(k + 1));
    }
}

/// A scan that saw no dot after position `d` pins down the extension.
proof fn lemma_ext_of_is(name: Seq<char>, d: int)
    requires
        0 < d < name.len(),
        name[d] == '.',
        forall|j: int| d < j < name.len() ==> name[j] != '.',
    ensures
        ext_of(name) == Some(name.skip(d + 1)),
    decreases name.len(),
{
    if d == name.len() - 1 {
        assert(name.last() == '.');
        assert(name.skip(d + 1) =~= Seq::<char>::empty());
    } else {
        assert(name.last() != '.');
        assert(name.drop_last() =~= name.take(name.len() - 1));
        lemma_ext_of_is(name.drop_last(), d);
        assert(name.drop_last().skip(d + 1).push(name.last()) =~= name.skip(d + 1));
    }
}

/// A name with no dot after position zero has no extension.
proof fn lemma_ext_of_none(name: Seq<char>)
    requires
        forall|j: int| 0 < j < name.len() ==> name[j] != '.',
    ensures
        ext_of(name) is None,
    decreases name.len(),
{
    if name.len() == 0 {
    } else if name.len() == 1 {
        if name.last() != '.' {
            assert(name.drop_last() =~= Seq::<char>::empty());
            assert(ext_of(Seq::<char>::empty()) is None);
        }
    } else {
        assert(name.last() != '.');
        assert(forall|j: int| 0 < j < name.len() - 1 ==> name.drop_last()[j] == name[j]);
        lemma_ext_of_none(name.drop_last());
    }
}

/// Find where the file name of `path` begins: the index after the last slash.
fn file_name_start(path: &str) -> (r: usize)
    ensures
        r <= path@.len(),
        after_last_slash(path@) == path@.skip(r as int),
{
    let len: usize = path.unicode_len();
    let mut k: usize = len;
    while k > 0
        invariant_except_break
            k <= len,
            len == path@.len(),
            forall|j: int| k <= j < len ==> path@[j] != '/',
        ensures
            k <= len,
            len == path@.len(),
            forall|j: int| k <= j < len ==> path@[j] != '/',
            k > 0 ==> path@[k - 1] == '/',
        decreases k,
    {
        if path.get_char(k - 1) == '/' {
            break ;
        }
        k = k - 1;
    }
    proof {
        lemma_after_last_slash_is(path@, k - 1);
    }
    k
}

impl Predicate {
    /// The kind of this rule.
    pub fn kind(&self) -> (r: PredicateKind)
        ensures
            r == PredicateKind::BeginsWith <==> self is BeginsWith,
            r == PredicateKind::HasExt <==> self is HasExt,
    {
        match self {
            Predicate::BeginsWith(_) => PredicateKind::BeginsWith,
            Predicate::HasExt(_) => PredicateKind::HasExt,
        }
    }

    /// Whether the rule matches a path.
    pub fn matches(&self, path: &str) -> (r: bool)
        ensures
            r == pred_matches(*self, path@),
    {
        match self {
            Predicate::BeginsWith(fragment) => Self::matches_begin(fragment.as_str(), path),
            Predicate::HasExt(ext) => Self::matches_ext(ext.as_str(), path),
        }
    }

    /// Whether the path's file name begins with `fragment`.
    pub fn matches_begin(fragment: &str, path: &str) -> (r: bool)
        ensures
            r == starts_with(after_last_slash(path@), fragment@),
    {
        let start: usize = file_name_start(path);
        let len: usize = path.unicode_len();
        let flen: usize = fragment.unicode_len();
        if flen > len - start {
            proof {
                assert(after_last_slash(path@).len() == len - start);
            }
            return false;
        }
        let ghost name = path@.skip(start as int);
        let mut i: usize = 0;
        while i < flen
            invariant
                i <= flen,
                flen == fragment@.len(),
                start + flen <= len,
                len == path@.len(),
                name == path@.skip(start as int),
                after_last_slash(path@) == name,
                forall|j: int| 0 <= j < i ==> name[j] == fragment@[j],
            decreases flen - i,
        {
            proof {
                assert(name[i as int] == path@[start + i]);
            }
            if path.get_char(start + i) != fragment.get_char(i) {
                proof {
                    assert(name.take(flen as int)[i as int] != fragment@[i as int]);
                }
                return false;
            }
            i = i + 1;
        }
        proof {
            assert(name.take(flen as int) =~= fragment@);
        }
        true
    }

    /// Whether the path's file name has exactly the extension `ext`.
    pub fn matches_ext(ext: &str, path: &str) -> (r: bool)
        ensures
            r == (ext_of(after_last_slash(path@)) == Some(ext@)),
    {
        let start: usize = file_name_start(path);
        let len: usize = path.unicode_len();
        let ghost name = path@.skip(start as int);
        // Find the last dot strictly after the name's first character.
        let mut k: usize = len;
        while k - start > 1
            invariant_except_break
                start <= k <= len,
                start <= len,
                len == path@.len(),
                forall|j: int| k <= j < len ==> path@[j] != '.',
            ensures
                start <= k <= len,
                len == path@.len(),
                forall|j: int| k <= j < len ==> path@[j] != '.',
                k - start > 1 ==> path@[k - 1] == '.' && k - 1 < len,
                k - start <= 1 ==> forall|j: int| start + 1 <= j < len ==> path@[j] != '.',
            decreases k,
        {
            if path.get_char(k - 1) == '.' {
                break ;
            }
            k = k - 1;
        }
        if k - start <= 1 {
            proof {
                assert(forall|j: int| 0 < j < name.len() ==> name[j] == path@[start + j] && path@[
                    start + j
                ] != '.');
                lemma_ext_of_none(name);
            }
            return false;
        }
        proof {
            assert(forall|j: int|
                (k - start - 1) < j < name.len() ==> name[j] == path@[start + j] && path@[start + j]
                    != '.');
            assert(name[(k - 1 - start) as int] == path@[k - 1]);
            lemma_ext_of_is(name, (k - 1 - start) as int);
        }
        // Compare the extension text.
        let elen: usize = ext.unicode_len();
        if elen != len - k {
            proof {
                assert(name.len() == len - start);
                assert(name.skip((k - start) as int).len() == len - k);
                assert(name.skip((k - start) as int) != ext@);
            }
            return false;
        }
        let ghost extseq = name.skip((k - start) as int);
        let mut i: usize = 0;
        while i < elen
            invariant
                i <= elen,
                elen == ext@.len(),
                k + elen == len,
                start < k,
                len == path@.len(),
                extseq == name.skip((k - start) as int),
                name == path@.skip(start as int),
                after_last_slash(path@) == name,
                ext_of(name) == Some(extseq),
                forall|j: int| 0 <= j < i ==> extseq[j] == ext@[j],
            decreases elen - i,
        {
            proof {
                assert(extseq[i as int] == path@[k + i]);
            }
            if path.get_char(k + i) != ext.get_char(i) {
                proof {
                    assert(extseq[i as int] != ext@[i as int]);
                }
                return false;
            }
            i = i + 1;
        }
        proof {
            assert(extseq =~= ext@);
        }
        true
    }
}

/// Some rule in the sequence matches the path.
pub open spec fn any_pred_matches(preds: Seq<Predicate>, path: Seq<char>) -> bool {
    exists|k: int| 0 <= k < preds.len() && pred_matches(#[trigger] preds[k], path)
}

/// Finding the first rule of a slice that matches a path.
pub trait PredicateSliceExt {
    fn find_predicate_match(&self, path: &str) -> bool;
}

impl PredicateSliceExt for [Predicate] {
    /// Whether any rule of the slice matches the path.
    fn find_predicate_match(&self, path: &str) -> (r: bool)
        ensures
            r == any_pred_matches(self@, path@),
    {
        let mut i: usize = 0;
        while i < self.len()
            invariant
                i <= self@.len(),
                forall|k: int| 0 <= k < i ==> !pred_matches(#[trigger] self@[k], path@),
            decreases self@.len() - i,
        {
            if self[i].matches(path) {
                return true;
            }
            i = i + 1;
        }
        false
    }
}

/// One custom-player table entry: when its predicates match the song path,
/// the reader command demuxes the song and these extra arguments are passed
/// to the player.
pub struct CustomPlayerEntry {
    pub predicates: Vec<Predicate>,
    pub reader_cmd: Command,
    pub extra_mpv_args: Vec<String>,
    pub name: String,
}

impl Config {
    /// The first custom-player entry whose predicates match the path, if any.
    pub fn find_custom_player(&self, path: &str) -> (r: Option<usize>)
        ensures
            r matches Some(i) ==> i < self.custom_players@.len() && any_pred_matches(
                self.custom_players@[i as int].predicates@,
                path@,
            ) && forall|j: int|
                0 <= j < i ==> !any_pred_matches(
                    (#[trigger] self.custom_players@[j]).predicates@,
                    path@,
                ),
            r is None ==> forall|j: int|
                0 <= j < self.custom_players@.len() ==> !any_pred_matches(
                    (#[trigger] self.custom_players@[j]).predicates@,
                    path@,
                ),
    {
        let mut i: usize = 0;
        while i < self.custom_players.len()
            invariant
                i <= self.custom_players@.len(),
                forall|j: int|
                    0 <= j < i ==> !any_pred_matches(
                        (#[trigger] self.custom_players@[j]).predicates@,
                        path@,
                    ),
            decreases self.custom_players@.len() - i,
        {
            if self.custom_players[i].predicates.as_slice().find_predicate_match(path) {
                return Some(i);
            }
            i = i + 1;
        }
        None
    }
}

} // verus!
