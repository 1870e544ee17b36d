//! The text form of the two manifests.
//!
//! A connection manifest lists bindings, `module.port <- signal` or
//! `module.port -> signal`, separated by `;`. A port-set manifest lists one
//! module's ports, `port <- Type` or `port -> Type`, separated by `,`. In
//! both a final separator is optional, and white space may stand between
//! any two symbols. Names are ASCII letters, digits and `_`, and do not
//! start with a digit.

use crate::wiring::{Binding, PortDecl, Way};
use vstd::prelude::*;

verus! {

/// Why a manifest text was refused.
#[derive(Debug, Clone, Copy, PartialEq, Eq, Structural)]
pub enum ManifestError {
    /// The text holds a character that starts no symbol.
    BadCharacter,
    /// The symbols do not form a manifest.
    BadSyntax,
}

/// A symbol of manifest text.
pub enum Symbol {
    /// A name.
    Name(Seq<char>),
    /// `.`
    Dot,
    /// `<-` or `->`.
    Arrow(Way),
    /// `;`
    Semi,
    /// `,`
    Comma,
}

/// A symbol as the reader holds it.
enum Token {
    Name(String),
    Dot,
    Arrow(Way),
    Semi,
    Comma,
}

spec fn symbol_of(t: Token) -> Symbol {
    match t {
        Token::Name(s) => Symbol::Name(s@),
        Token::Dot => Symbol::Dot,
        Token::Arrow(w) => Symbol::Arrow(w),
        Token::Semi => Symbol::Semi,
        Token::Comma => Symbol::Comma,
    }
}

spec fn symbols_of(ts: Seq<Token>) -> Seq<Symbol> {
    ts.map_values(|t: Token| symbol_of(t))
}

/// White space between symbols.
pub open spec fn is_space(c: char) -> bool {
    c == ' ' || c == '\t' || c == '\n' || c == '\r'
}

/// A character that may start a name.
pub open spec fn is_name_start(c: char) -> bool {
    ('a' <= c && c <= 'z') || ('A' <= c && c <= 'Z') || c == '_'
}

/// A character that may continue a name.
pub open spec fn is_name_char(c: char) -> bool {
    is_name_start(c) || ('0' <= c && c <= '9')
}

/// The length of the run of name characters that `s` starts with.
pub open spec fn name_len(s: Seq<char>) -> nat
    decreases s.len(),
{
    if s.len() > 0 && is_name_char(s[0]) {
        1 + name_len(s.drop_first())
    } else {
        0
    }
}

/// The symbols of text `s`, each name as long as it can be; `None` when
/// some character starts no symbol.
pub open spec fn symbols(s: Seq<char>) -> Option<Seq<Symbol>>
    decreases s.len(),
{
    if s.len() == 0 {
        Some(seq![])
    } else {
        let c = s[0];
        let (first, used): (Option<Symbol>, int) = if is_space(c) {
            (None, 1)
        } else if c == '.' {
            (Some(Symbol::Dot), 1)
        } else if c == ';' {
            (Some(Symbol::Semi), 1)
        } else if c == ',' {
            (Some(Symbol::Comma), 1)
        } else if c == '<' && s.len() > 1 && s[1] == '-' {
            (Some(Symbol::Arrow(Way::In)), 2)
        } else if c == '-' && s.len() > 1 && s[1] == '>' {
            (Some(Symbol::Arrow(Way::Out)), 2)
        } else if is_name_start(c) {
            (Some(Symbol::Name(s.take(name_len(s) as int))), name_len(s) as int)
        } else {
            (None, 0)
        };
        if used == 0 || used > s.len() {
            None
        } else {
            match symbols(s.skip(used)) {
                Some(rest) => match first {
                    Some(t) => Some(seq![t] + rest),
                    None => Some(rest),
                },
                None => None,
            }
        }
    }
}

/// A binding as names and a direction.
pub open spec fn binding_view(b: Binding) -> (Seq<char>, Seq<char>, Way, Seq<char>) {
    (b.module@, b.port@, b.way, b.signal@)
}

/// A port declaration as names and a direction.
pub open spec fn decl_view(d: PortDecl) -> (Seq<char>, Way, Seq<char>) {
    (d.name@, d.way, d.ty@)
}

/// The bindings that the symbols `t` of a connection manifest list, or
/// `None` when they are not one.
pub open spec fn bindings(t: Seq<Symbol>) -> Option<Seq<(Seq<char>, Seq<char>, Way, Seq<char>)>>
    decreases t.len(),
{
    if t.len() == 0 {
        Some(seq![])
    } else if t.len() >= 5 && t[0] is Name && t[1] is Dot && t[2] is Name && t[3] is Arrow
        && t[4] is Name {
        let b = (t[0]->Name_0, t[2]->Name_0, t[3]->Arrow_0, t[4]->Name_0);
        if t.len() == 5 {
            Some(seq![b])
        } else if t[5] is Semi {
            match bindings(t.skip(6)) {
                Some(rest) => Some(seq![b] + rest),
                None => None,
            }
        } else {
            None
        }
    } else {
        None
    }
}

/// The port declarations that the symbols `t` of a port-set manifest list,
/// or `None` when they are not one.
pub open spec fn declarations(t: Seq<Symbol>) -> Option<Seq<(Seq<char>, Way, Seq<char>)>>
    decreases t.len(),
{
    if t.len() == 0 {
        Some(seq![])
    } else if t.len() >= 3 && t[0] is Name && t[1] is Arrow && t[2] is Name {
        let d = (t[0]->Name_0, t[1]->Arrow_0, t[2]->Name_0);
        if t.len() == 3 {
            Some(seq![d])
        } else if t[3] is Comma {
            match declarations(t.skip(4)) {
                Some(rest) => Some(seq![d] + rest),
                None => None,
            }
        } else {
            None
        }
    } else {
        None
    }
}

/// The symbols of binding `b` written out, ending with `;`.
pub open spec fn written_binding(b: (Seq<char>, Seq<char>, Way, Seq<char>)) -> Seq<Symbol> {
    seq![
        Symbol::Name(b.0),
        Symbol::Dot,
        Symbol::Name(b.1),
        Symbol::Arrow(b.2),
        Symbol::Name(b.3),
        Symbol::Semi,
    ]
}

/// The symbols of the bindings `bs` written out in order.
pub open spec fn written_bindings(bs: Seq<(Seq<char>, Seq<char>, Way, Seq<char>)>) -> Seq<Symbol>
    decreases bs.len(),
{
    if bs.len() == 0 {
        seq![]
    } else {
        written_binding(bs[0]) + written_bindings(bs.drop_first())
    }
}

proof fn lemma_written_form_reads_back(bs: Seq<(Seq<char>, Seq<char>, Way, Seq<char>)>)
    ensures
        bindings(written_bindings(bs)) == Some(bs),
        bs.len() > 0 ==> bindings(written_bindings(bs).drop_last()) == Some(bs),
    decreases bs.len(),
{
    if bs.len() > 0 {
        let tail = bs.drop_first();
        let w = written_bindings(bs);
        lemma_written_form_reads_back(tail);
        assert(w =~= written_binding(bs[0]) + written_bindings(tail));
        assert(w.skip(6) =~= written_bindings(tail));
        assert(bs =~= seq![bs[0]] + tail);
        let v = w.drop_last();
        if tail.len() == 0 {
            assert(written_bindings(tail) == Seq::<Symbol>::empty());
            assert(v.len() == 5);
        } else {
            let wt = written_bindings(tail);
            assert(wt =~= written_binding(tail[0]) + written_bindings(tail.drop_first()));
            assert(v[5] == w[5]);
            assert(v.skip(6) =~= wt.drop_last());
        }
    }
}

proof fn lemma_read_is_written_form(t: Seq<Symbol>, bs: Seq<(Seq<char>, Seq<char>, Way, Seq<char>)>)
    requires
        bindings(t) == Some(bs),
    ensures
        t == written_bindings(bs) || (bs.len() > 0 && t.push(Symbol::Semi) == written_bindings(bs)),
    decreases t.len(),
{
    if t.len() > 0 {
        let b = (t[0]->Name_0, t[2]->Name_0, t[3]->Arrow_0, t[4]->Name_0);
        if t.len() == 5 {
            assert(bs =~= seq![b]);
            assert(bs.drop_first() =~= Seq::<(Seq<char>, Seq<char>, Way, Seq<char>)>::empty());
            assert(written_bindings(bs) =~= written_binding(b) + written_bindings(bs.drop_first()));
            assert(t.push(Symbol::Semi) =~= written_bindings(bs));
        } else {
            let rest = t.skip(6);
            let tail = bindings(rest)->Some_0;
            assert(bs == seq![b] + tail);
            assert(bs.drop_first() =~= tail);
            lemma_read_is_written_form(rest, tail);
            assert(written_bindings(bs) =~= written_binding(b) + written_bindings(tail));
            if rest == written_bindings(tail) {
                assert(t =~= written_binding(b) + rest);
            } else {
                assert(t.push(Symbol::Semi) =~= written_binding(b) + rest.push(Symbol::Semi));
            }
        }
    }
}

/// A connection manifest lists the bindings `bs` exactly when its symbols
/// are those bindings written out in order, the final `;` being optional.
pub proof fn law_bindings_are_written_form(
    t: Seq<Symbol>,
    bs: Seq<(Seq<char>, Seq<char>, Way, Seq<char>)>,
)
    ensures
        bindings(t) == Some(bs) <==> (t == written_bindings(bs) || (bs.len() > 0 && t.push(
            Symbol::Semi,
        ) == written_bindings(bs))),
{
    lemma_written_form_reads_back(bs);
    if bindings(t) == Some(bs) {
        lemma_read_is_written_form(t, bs);
    }
    if bs.len() > 0 && t.push(Symbol::Semi) == written_bindings(bs) {
        assert(t =~= written_bindings(bs).drop_last());
    }
}

/// The symbols of declaration `d` written out, ending with `,`.
pub open spec fn written_decl(d: (Seq<char>, Way, Seq<char>)) -> Seq<Symbol> {
    seq![Symbol::Name(d.0), Symbol::Arrow(d.1), Symbol::Name(d.2), Symbol::Comma]
}

/// The symbols of the declarations `ds` written out in order.
pub open spec fn written_decls(ds: Seq<(Seq<char>, Way, Seq<char>)>) -> Seq<Symbol>
    decreases ds.len(),
{
    if ds.len() == 0 {
        seq![]
    } else {
        written_decl(ds[0]) + written_decls(ds.drop_first())
    }
}

proof fn lemma_written_decls_read_back(ds: Seq<(Seq<char>, Way, Seq<char>)>)
    ensures
        declarations(written_decls(ds)) == Some(ds),
        ds.len() > 0 ==> declarations(written_decls(ds).drop_last()) == Some(ds),
    decreases ds.len(),
{
    if ds.len() > 0 {
        let tail = ds.drop_first();
        let w = written_decls(ds);
        lemma_written_decls_read_back(tail);
        assert(w =~= written_decl(ds[0]) + written_decls(tail));
        assert(w.skip(4) =~= written_decls(tail));
        assert(ds =~= seq![ds[0]] + tail);
        let v = w.drop_last();
        if tail.len() == 0 {
            assert(written_decls(tail) == Seq::<Symbol>::empty());
            assert(v.len() == 3);
        } else {
            let wt = written_decls(tail);
            assert(wt =~= written_decl(tail[0]) + written_decls(tail.drop_first()));
            assert(v[3] == w[3]);
            assert(v.skip(4) =~= wt.drop_last());
        }
    }
}

proof fn lemma_read_decls_written_form(t: Seq<Symbol>, ds: Seq<(Seq<char>, Way, Seq<char>)>)
    requires
        declarations(t) == Some(ds),
    ensures
        t == written_decls(ds) || (ds.len() > 0 && t.push(Symbol::Comma) == written_decls(ds)),
    decreases t.len(),
{
    if t.len() > 0 {
        let d = (t[0]->Name_0, t[1]->Arrow_0, t[2]->Name_0);
        if t.len() == 3 {
            assert(ds =~= seq![d]);
            assert(ds.drop_first() =~= Seq::<(Seq<char>, Way, Seq<char>)>::empty());
            assert(written_decls(ds) =~= written_decl(d) + written_decls(ds.drop_first()));
            assert(t.push(Symbol::Comma) =~= written_decls(ds));
        } else {
            let rest = t.skip(4);
            let tail = declarations(rest)->Some_0;
            assert(ds == seq![d] + tail);
            assert(ds.drop_first() =~= tail);
            lemma_read_decls_written_form(rest, tail);
            assert(written_decls(ds) =~= written_decl(d) + written_decls(tail));
            if rest == written_decls(tail) {
                assert(t =~= written_decl(d) + rest);
            } else {
                assert(t.push(Symbol::Comma) =~= written_decl(d) + rest.push(Symbol::Comma));
            }
        }
    }
}

/// A port-set manifest declares the ports `ds` exactly when its symbols are
/// those declarations written out in order, the final `,` being optional.
pub proof fn law_declarations_are_written_form(
    t: Seq<Symbol>,
    ds: Seq<(Seq<char>, Way, Seq<char>)>,
)
    ensures
        declarations(t) == Some(ds) <==> (t == written_decls(ds) || (ds.len() > 0 && t.push(
            Symbol::Comma,
        ) == written_decls(ds))),
{
    lemma_written_decls_read_back(ds);
    if declarations(t) == Some(ds) {
        lemma_read_decls_written_form(t, ds);
    }
    if ds.len() > 0 && t.push(Symbol::Comma) == written_decls(ds) {
        assert(t =~= written_decls(ds).drop_last());
    }
}

fn space(c: char) -> (r: bool)
    ensures
        r == is_space(c),
{
    c == ' ' || c == '\t' || c == '\n' || c == '\r'
}

fn name_start(c: char) -> (r: bool)
    ensures
        r == is_name_start(c),
{
    ('a' <= c && c <= 'z') || ('A' <= c && c <= 'Z') || c == '_'
}

fn name_char(c: char) -> (r: bool)
    ensures
        r == is_name_char(c),
{
    name_start(c) || ('0' <= c && c <= '9')
}

proof fn lemma_skip_skip<A>(s: Seq<A>, i: int, k: int)
    requires
        0 <= i,
        0 <= k,
        i + k <= s.len(),
    ensures
        s.skip(i).skip(k) == s.skip(i + k),
{
    assert(s.skip(i).skip(k) =~= s.skip(i + k));
}

/// The name at position `k` of `ts`, if that symbol is a name.
fn name_at(ts: &Vec<Token>, k: usize) -> (r: Option<String>)
    ensures
        r matches Some(n) ==> k < ts@.len() && symbol_of(ts@[k as int]) == Symbol::Name(n@),
        r is None ==> k >= ts@.len() || !(symbol_of(ts@[k as int]) is Name),
{
    if k < ts.len() {
        match &ts[k] {
            Token::Name(n) => Some(n.clone()),
            _ => None,
        }
    } else {
        None
    }
}

/// The direction at position `k` of `ts`, if that symbol is an arrow.
fn arrow_at(ts: &Vec<Token>, k: usize) -> (r: Option<Way>)
    ensures
        r matches Some(w) ==> k < ts@.len() && symbol_of(ts@[k as int]) == Symbol::Arrow(w),
        r is None ==> k >= ts@.len() || !(symbol_of(ts@[k as int]) is Arrow),
{
    if k < ts.len() {
        match &ts[k] {
            Token::Arrow(w) => Some(*w),
            _ => None,
        }
    } else {
        None
    }
}

/// A separating symbol.
#[derive(Clone, Copy, PartialEq, Eq, Structural)]
enum Punct {
    Dot,
    Semi,
    Comma,
}

spec fn punct_symbol(p: Punct) -> Symbol {
    match p {
        Punct::Dot => Symbol::Dot,
        Punct::Semi => Symbol::Semi,
        Punct::Comma => Symbol::Comma,
    }
}

/// Whether position `k` of `ts` holds the separator `p`.
fn punct_at(ts: &Vec<Token>, k: usize, p: Punct) -> (r: bool)
    ensures
        r == (k < ts@.len() && symbol_of(ts@[k as int]) == punct_symbol(p)),
{
    if k < ts.len() {
        match &ts[k] {
            Token::Dot => p == Punct::Dot,
            Token::Semi => p == Punct::Semi,
            Token::Comma => p == Punct::Comma,
            _ => false,
        }
    } else {
        false
    }
}

/// Splits `text` into symbols.
fn lex(text: &str) -> (r: Option<Vec<Token>>)
    ensures
        r matches Some(ts) ==> symbols(text@) == Some(symbols_of(ts@)),
        r is None ==> symbols(text@) is None,
{
    let n = text.unicode_len();
    let mut toks: Vec<Token> = Vec::new();
    let mut i: usize = 0;
    proof {
        assert(text@.skip(0) =~= text@);
        match symbols(text@) {
            Some(rest) => {
                assert(symbols_of(toks@) + rest =~= rest);
            },
            None => {},
        }
    }
    while i < n
        invariant
            n == text@.len(),
            i <= n,
            symbols(text@) == match symbols(text@.skip(i as int)) {
                Some(rest) => Some(symbols_of(toks@) + rest),
                None => None,
            },
        decreases n - i,
    {
        let ghost s = text@.skip(i as int);
        let c = text.get_char(i);
        assert(s[0] == c);
        let mut used: usize = 1;
        let mut tok: Option<Token> = None;
        if space(c) {
        } else if c == '.' {
            tok = Some(Token::Dot);
        } else if c == ';' {
            tok = Some(Token::Semi);
        } else if c == ',' {
            tok = Some(Token::Comma);
        } else if c == '<' && i + 1 < n && text.get_char(i + 1) == '-' {
            assert(s[1] == text@[i + 1]);
            tok = Some(Token::Arrow(Way::In));
            used = 2;
        } else if c == '-' && i + 1 < n && text.get_char(i + 1) == '>' {
            assert(s[1] == text@[i + 1]);
            tok = Some(Token::Arrow(Way::Out));
            used = 2;
        } else if name_start(c) {
            let mut j: usize = i + 1;
            assert(s.drop_first() =~= text@.skip(i + 1));
            while j < n && name_char(text.get_char(j))
                invariant
                    n == text@.len(),
                    i < j <= n,
                    s == text@.skip(i as int),
                    name_len(s) == (j - i) + name_len(text@.skip(j as int)),
                    forall|k: int| i <= k < j ==> is_name_char(#[trigger] text@[k]),
                decreases n - j,
            {
                assert(text@.skip(j as int).drop_first() =~= text@.skip(j + 1));
                j = j + 1;
            }
            proof {
                if j < n {
                    assert(text@.skip(j as int)[0] == text@[j as int]);
                }
            }
            assert(name_len(s) == j - i);
            let name = text.substring_char(i, j).to_owned();
            assert(name@ =~= s.take(name_len(s) as int));
            tok = Some(Token::Name(name));
            used = j - i;
        } else {
            return None;
        }
        proof {
            if is_space(c) {
                assert(tok is None);
            }
            lemma_skip_skip(text@, i as int, used as int);
        }
        match tok {
            Some(t) => {
                let ghost before = toks@;
                toks.push(t);
                assert(symbols_of(toks@) =~= symbols_of(before) + seq![symbol_of(t)]);
                proof {
                    match symbols(text@.skip(i + used)) {
                        Some(rest) => {
                            assert(symbols_of(before) + (seq![symbol_of(t)] + rest) =~= symbols_of(toks@) + rest);
                        },
                        None => {},
                    }
                }
            },
            None => {},
        }
        i = i + used;
    }
    assert(text@.skip(n as int) =~= Seq::<char>::empty());
    assert(symbols_of(toks@) + seq![] =~= symbols_of(toks@));
    Some(toks)
}

/// The bindings `rows` as names and directions.
pub open spec fn binding_views(rows: Seq<Binding>) -> Seq<(Seq<char>, Seq<char>, Way, Seq<char>)> {
    rows.map_values(|b: Binding| binding_view(b))
}

/// The declarations `decls` as names and directions.
pub open spec fn decl_views(decls: Seq<PortDecl>) -> Seq<(Seq<char>, Way, Seq<char>)> {
    decls.map_values(|d: PortDecl| decl_view(d))
}

/// Reads the bindings that the symbols `ts` list.
fn read_bindings(ts: &Vec<Token>) -> (r: Option<Vec<Binding>>)
    ensures
        r matches Some(rows) ==> bindings(symbols_of(ts@)) == Some(binding_views(rows@)),
        r is None ==> bindings(symbols_of(ts@)) is None,
{
    let ghost t = symbols_of(ts@);
    let n = ts.len();
    let mut rows: Vec<Binding> = Vec::new();
    let mut k: usize = 0;
    proof {
        assert(t.skip(0) =~= t);
        match bindings(t) {
            Some(rest) => {
                assert(binding_views(rows@) + rest =~= rest);
            },
            None => {},
        }
    }
    while k < n
        invariant
            n == ts@.len(),
            k <= n,
            t == symbols_of(ts@),
            bindings(t) == match bindings(t.skip(k as int)) {
                Some(rest) => Some(binding_views(rows@) + rest),
                None => None,
            },
        decreases n - k,
    {
        let ghost u = t.skip(k as int);
        assert(forall|j: int| 0 <= j < u.len() ==> #[trigger] u[j] == symbol_of(ts@[k + j]));
        if n - k < 5 {
            return None;
        }
        let module = name_at(ts, k);
        let dot = punct_at(ts, k + 1, Punct::Dot);
        let port = name_at(ts, k + 2);
        let way = arrow_at(ts, k + 3);
        let sig = name_at(ts, k + 4);
        let (module, port, way, sig) = match (module, port, way, sig) {
            (Some(m), Some(p), Some(w), Some(g)) => (m, p, w, g),
            _ => {
                assert(!(u[0] is Name && u[1] is Dot && u[2] is Name && u[3] is Arrow && u[4] is Name));
                return None;
            },
        };
        if !dot {
            return None;
        }
        assert(u[0] is Name && u[1] is Dot && u[2] is Name && u[3] is Arrow && u[4] is Name);
        let ghost b = (u[0]->Name_0, u[2]->Name_0, u[3]->Arrow_0, u[4]->Name_0);
        let ghost before = rows@;
        let row = Binding { module, port, way, signal: sig };
        assert(binding_view(row) == b);
        rows.push(row);
        assert(binding_views(rows@) =~= binding_views(before) + seq![b]);
        if k + 5 == n {
            assert(bindings(u) == Some(seq![b]));
            assert(binding_views(before) + seq![b] + seq![] =~= binding_views(rows@));
            assert(t.skip(n as int) =~= Seq::<Symbol>::empty());
            return Some(rows);
        }
        if !punct_at(ts, k + 5, Punct::Semi) {
            return None;
        }
        proof {
            lemma_skip_skip(t, k as int, 6);
            match bindings(t.skip(k + 6)) {
                Some(rest) => {
                    assert(binding_views(before) + (seq![b] + rest) =~= binding_views(rows@) + rest);
                },
                None => {},
            }
        }
        k = k + 6;
    }
    assert(t.skip(k as int) =~= Seq::<Symbol>::empty());
    assert(binding_views(rows@) + seq![] =~= binding_views(rows@));
    Some(rows)
}

/// Reads the port declarations that the symbols `ts` list.
fn read_declarations(ts: &Vec<Token>) -> (r: Option<Vec<PortDecl>>)
    ensures
        r matches Some(decls) ==> declarations(symbols_of(ts@)) == Some(decl_views(decls@)),
        r is None ==> declarations(symbols_of(ts@)) is None,
{
    let ghost t = symbols_of(ts@);
    let n = ts.len();
    let mut decls: Vec<PortDecl> = Vec::new();
    let mut k: usize = 0;
    proof {
        assert(t.skip(0) =~= t);
        match declarations(t) {
            Some(rest) => {
                assert(decl_views(decls@) + rest =~= rest);
            },
            None => {},
        }
    }
    while k < n
        invariant
            n == ts@.len(),
            k <= n,
            t == symbols_of(ts@),
            declarations(t) == match declarations(t.skip(k as int)) {
                Some(rest) => Some(decl_views(decls@) + rest),
                None => None,
            },
        decreases n - k,
    {
        let ghost u = t.skip(k as int);
        assert(forall|j: int| 0 <= j < u.len() ==> #[trigger] u[j] == symbol_of(ts@[k + j]));
        if n - k < 3 {
            return None;
        }
        let name = name_at(ts, k);
        let way = arrow_at(ts, k + 1);
        let ty = name_at(ts, k + 2);
        let (name, way, ty) = match (name, way, ty) {
            (Some(m), Some(w), Some(y)) => (m, w, y),
            _ => {
                assert(!(u[0] is Name && u[1] is Arrow && u[2] is Name));
                return None;
            },
        };
        assert(u[0] is Name && u[1] is Arrow && u[2] is Name);
        let ghost d = (u[0]->Name_0, u[1]->Arrow_0, u[2]->Name_0);
        let ghost before = decls@;
        let decl = PortDecl { name, way, ty };
        assert(decl_view(decl) == d);
        decls.push(decl);
        assert(decl_views(decls@) =~= decl_views(before) + seq![d]);
        if k + 3 == n {
            assert(declarations(u) == Some(seq![d]));
            assert(decl_views(before) + seq![d] + seq![] =~= decl_views(decls@));
            return Some(decls);
        }
        if !punct_at(ts, k + 3, Punct::Comma) {
            return None;
        }
        proof {
            lemma_skip_skip(t, k as int, 4);
            match declarations(t.skip(k + 4)) {
                Some(rest) => {
                    assert(decl_views(before) + (seq![d] + rest) =~= decl_views(decls@) + rest);
                },
                None => {},
            }
        }
        k = k + 4;
    }
    assert(t.skip(k as int) =~= Seq::<Symbol>::empty());
    assert(decl_views(decls@) + seq![] =~= decl_views(decls@));
    Some(decls)
}

/// Reads a connection manifest: the bindings it lists, in order.
/// `BadCharacter` when some character of `text` starts no symbol,
/// `BadSyntax` when the symbols do not form bindings separated by `;`.
pub fn parse_connections(text: &str) -> (r: Result<Vec<Binding>, ManifestError>)
    ensures
        r matches Ok(rows) ==> symbols(text@) matches Some(t) && bindings(t) == Some(
            binding_views(rows@),
        ),
        r == Err::<Vec<Binding>, ManifestError>(ManifestError::BadCharacter) <==> symbols(
            text@,
        ) is None,
        r == Err::<Vec<Binding>, ManifestError>(ManifestError::BadSyntax) <==> (symbols(
            text@,
        ) matches Some(t) && bindings(t) is None),
{
    match lex(text) {
        None => Err(ManifestError::BadCharacter),
        Some(ts) => match read_bindings(&ts) {
            Some(rows) => Ok(rows),
            None => Err(ManifestError::BadSyntax),
        },
    }
}

/// Reads a port-set manifest: the ports it declares, in order.
/// `BadCharacter` when some character of `text` starts no symbol,
/// `BadSyntax` when the symbols do not form declarations separated by `,`.
pub fn parse_ports(text: &str) -> (r: Result<Vec<PortDecl>, ManifestError>)
    ensures
        r matches Ok(decls) ==> symbols(text@) matches Some(t) && declarations(t) == Some(
            decl_views(decls@),
        ),
        r == Err::<Vec<PortDecl>, ManifestError>(ManifestError::BadCharacter) <==> symbols(
            text@,
        ) is None,
        r == Err::<Vec<PortDecl>, ManifestError>(ManifestError::BadSyntax) <==> (symbols(
            text@,
        ) matches Some(t) && declarations(t) is None),
{
    match lex(text) {
        None => Err(ManifestError::BadCharacter),
        Some(ts) => match read_declarations(&ts) {
            Some(decls) => Ok(decls),
            None => Err(ManifestError::BadSyntax),
        },
    }
}

} // verus!
