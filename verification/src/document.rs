//! The persisted profile document: a line-oriented, human-editable text
//! format, with a verified encoder and decoder and a proof that every store
//! round-trips through it unchanged.
//!
//! The document begins with a `servers:` header line; each profile then takes
//! four lines in fixed order (`- alias: "…"`, `  username: "…"`, `  host:
//! "…"`, `  identity: "…"` or `  identity: ~` for an absent identity). Field
//! values stand in double quotes, with `\\`, `\"` and `\n` escapes, so every
//! string value — including quotes, backslashes and newlines — survives the
//! trip to disk and back.

use vstd::prelude::*;

verus! {

use crate::config::ServerView;

/// The header line that opens every document.
pub open spec fn spec_header() -> Seq<char> {
    "servers:\n"@
}

/// The prefix of a profile's alias line, opening quote included.
pub open spec fn spec_alias_prefix() -> Seq<char> {
    "- alias: \""@
}

/// The prefix of a profile's username line, opening quote included.
pub open spec fn spec_username_prefix() -> Seq<char> {
    "  username: \""@
}

/// The prefix of a profile's host line, opening quote included.
pub open spec fn spec_host_prefix() -> Seq<char> {
    "  host: \""@
}

/// The prefix of a profile's identity line when an identity is present.
pub open spec fn spec_identity_prefix() -> Seq<char> {
    "  identity: \""@
}

/// The whole identity line when the profile carries no identity.
pub open spec fn spec_identity_none_line() -> Seq<char> {
    "  identity: ~\n"@
}

/// The closing quote and line end that finish every quoted field line.
pub open spec fn spec_quote_newline() -> Seq<char> {
    "\"\n"@
}

/// How one character is written inside a quoted field value.
pub open spec fn esc_char(c: char) -> Seq<char> {
    if c == '\\' {
        seq!['\\', '\\']
    } else if c == '"' {
        seq!['\\', '"']
    } else if c == '\n' {
        seq!['\\', 'n']
    } else {
        seq![c]
    }
}

/// How a whole field value is written inside its quotes.
pub open spec fn esc(s: Seq<char>) -> Seq<char>
    decreases s.len(),
{
    if s.len() == 0 {
        Seq::empty()
    } else {
        esc_char(s[0]) + esc(s.skip(1))
    }
}

/// One quoted field line: prefix, escaped value, closing quote, line end.
pub open spec fn enc_field(prefix: Seq<char>, v: Seq<char>) -> Seq<char> {
    prefix + esc(v) + spec_quote_newline()
}

/// The identity line of a profile.
pub open spec fn enc_identity(id: Option<Seq<char>>) -> Seq<char> {
    match id {
        None => spec_identity_none_line(),
        Some(s) => enc_field(spec_identity_prefix(), s),
    }
}

/// The four lines of one profile record.
pub open spec fn enc_server(s: ServerView) -> Seq<char> {
    enc_field(spec_alias_prefix(), s.alias) + enc_field(spec_username_prefix(), s.username)
        + enc_field(spec_host_prefix(), s.host) + enc_identity(s.identity)
}

/// All profile records, in stored order.
pub open spec fn enc_servers(ss: Seq<ServerView>) -> Seq<char>
    decreases ss.len(),
{
    if ss.len() == 0 {
        Seq::empty()
    } else {
        enc_server(ss[0]) + enc_servers(ss.skip(1))
    }
}

/// The whole document for a store.
pub open spec fn enc_config(ss: Seq<ServerView>) -> Seq<char> {
    spec_header() + enc_servers(ss)
}

/// True iff `t` begins with `p`.
pub open spec fn starts_with(t: Seq<char>, p: Seq<char>) -> bool {
    t.len() >= p.len() && t.take(p.len() as int) == p
}

/// The character an escape pair `\x` stands for.
pub open spec fn unescape_char(c: char) -> char {
    if c == 'n' {
        '\n'
    } else {
        c
    }
}

/// Reads a quoted field value up to and including its closing quote; yields
/// the value and the rest of the text, or nothing if the text is not a
/// well-formed quoted value.
pub open spec fn dec_qstr(t: Seq<char>) -> Option<(Seq<char>, Seq<char>)>
    decreases t.len(),
{
    if t.len() == 0 {
        None
    } else if t[0] == '"' {
        Some((Seq::empty(), t.skip(1)))
    } else if t[0] == '\\' {
        if t.len() < 2 {
            None
        } else if t[1] == 'n' || t[1] == '\\' || t[1] == '"' {
            match dec_qstr(t.skip(2)) {
                Some(p) => Some((seq![unescape_char(t[1])] + p.0, p.1)),
                None => None,
            }
        } else {
            None
        }
    } else if t[0] == '\n' {
        None
    } else {
        match dec_qstr(t.skip(1)) {
            Some(p) => Some((seq![t[0]] + p.0, p.1)),
            None => None,
        }
    }
}

/// Reads one quoted field line with the given prefix.
pub open spec fn dec_field(prefix: Seq<char>, t: Seq<char>) -> Option<(Seq<char>, Seq<char>)> {
    if starts_with(t, prefix) {
        match dec_qstr(t.skip(prefix.len() as int)) {
            Some(p) => if p.1.len() >= 1 && p.1[0] == '\n' {
                Some((p.0, p.1.skip(1)))
            } else {
                None
            },
            None => None,
        }
    } else {
        None
    }
}

/// Reads a profile's identity line, quoted or `~`.
pub open spec fn dec_identity(t: Seq<char>) -> Option<(Option<Seq<char>>, Seq<char>)> {
    if starts_with(t, spec_identity_none_line()) {
        Some((None, t.skip(spec_identity_none_line().len() as int)))
    } else {
        match dec_field(spec_identity_prefix(), t) {
            Some(p) => Some((Some(p.0), p.1)),
            None => None,
        }
    }
}

/// Reads the four lines of one profile record.
pub open spec fn dec_server(t: Seq<char>) -> Option<(ServerView, Seq<char>)> {
    match dec_field(spec_alias_prefix(), t) {
        Some(pa) => match dec_field(spec_username_prefix(), pa.1) {
            Some(pu) => match dec_field(spec_host_prefix(), pu.1) {
                Some(ph) => match dec_identity(ph.1) {
                    Some(pi) => Some(
                        (
                            ServerView {
                                alias: pa.0,
                                username: pu.0,
                                host: ph.0,
                                identity: pi.0,
                            },
                            pi.1,
                        ),
                    ),
                    None => None,
                },
                None => None,
            },
            None => None,
        },
        None => None,
    }
}

/// Reads profile records until the text runs out.
pub open spec fn dec_servers(t: Seq<char>) -> Option<Seq<ServerView>>
    decreases t.len(),
{
    if t.len() == 0 {
        Some(Seq::empty())
    } else {
        match dec_server(t) {
            Some(p) => if p.1.len() < t.len() {
                match dec_servers(p.1) {
                    Some(tail) => Some(seq![p.0] + tail),
                    None => None,
                }
            } else {
                None
            },
            None => None,
        }
    }
}

/// Reads a whole document: the header line, then every record.
pub open spec fn dec_config(t: Seq<char>) -> Option<Seq<ServerView>> {
    if starts_with(t, spec_header()) {
        dec_servers(t.skip(spec_header().len() as int))
    } else {
        None
    }
}

proof fn lemma_starts_with_concat(p: Seq<char>, rest: Seq<char>)
    ensures
        starts_with(p + rest, p),
        (p + rest).skip(p.len() as int) == rest,
{
    assert((p + rest).take(p.len() as int) =~= p);
    assert((p + rest).skip(p.len() as int) =~= rest);
}

proof fn lemma_dec_qstr_esc(s: Seq<char>, rest: Seq<char>)
    ensures
        dec_qstr(esc(s) + seq!['"'] + rest) == Some((s, rest)),
    decreases s.len(),
{
    let t = esc(s) + seq!['"'] + rest;
    if s.len() == 0 {
        assert(t =~= seq!['"'] + rest);
        assert(t[0] == '"');
        assert(t.skip(1) =~= rest);
        assert(Seq::<char>::empty() =~= s);
    } else {
        let c = s[0];
        let s1 = s.skip(1);
        lemma_dec_qstr_esc(s1, rest);
        assert(seq![c] + s1 =~= s);
        if c == '\\' || c == '"' || c == '\n' {
            assert(esc_char(c).len() == 2 && esc_char(c)[0] == '\\');
            assert(t[0] == '\\');
            assert(t.len() >= 2);
            assert(t[1] == esc_char(c)[1]);
            assert(t[1] == 'n' || t[1] == '\\' || t[1] == '"');
            assert(unescape_char(t[1]) == c);
            assert(t.skip(2) =~= esc(s1) + seq!['"'] + rest);
            assert(dec_qstr(t) == Some((seq![c] + s1, rest)));
        } else {
            assert(esc_char(c) =~= seq![c]);
            assert(t[0] == c);
            assert(t[0] != '"' && t[0] != '\\' && t[0] != '\n');
            assert(t.skip(1) =~= esc(s1) + seq!['"'] + rest);
            assert(dec_qstr(t) == Some((seq![c] + s1, rest)));
        }
    }
}

proof fn lemma_dec_field_enc(prefix: Seq<char>, v: Seq<char>, rest: Seq<char>)
    ensures
        dec_field(prefix, enc_field(prefix, v) + rest) == Some((v, rest)),
{
    let t = enc_field(prefix, v) + rest;
    reveal_strlit("\"\n");
    assert(spec_quote_newline() =~= seq!['"', '\n']);
    assert(t =~= prefix + (esc(v) + seq!['"'] + (seq!['\n'] + rest)));
    lemma_starts_with_concat(prefix, esc(v) + seq!['"'] + (seq!['\n'] + rest));
    assert(starts_with(t, prefix));
    assert(t.skip(prefix.len() as int) == esc(v) + seq!['"'] + (seq!['\n'] + rest));
    lemma_dec_qstr_esc(v, seq!['\n'] + rest);
    let after = seq!['\n'] + rest;
    assert(after.len() >= 1 && after[0] == '\n');
    assert(after.skip(1) =~= rest);
}

proof fn lemma_identity_prefixes_differ(t: Seq<char>)
    requires
        starts_with(t, spec_identity_prefix()),
    ensures
        !starts_with(t, spec_identity_none_line()),
{
    reveal_strlit("  identity: \"");
    reveal_strlit("  identity: ~\n");
    assert(spec_identity_prefix().len() == 13);
    assert(spec_identity_none_line().len() == 14);
    assert(t[12] == spec_identity_prefix()[12]);
    assert(spec_identity_prefix()[12] == '"');
    assert(spec_identity_none_line()[12] == '~');
    if starts_with(t, spec_identity_none_line()) {
        assert(t.take(14)[12] == t[12]);
    }
}

proof fn lemma_dec_identity_enc(id: Option<Seq<char>>, rest: Seq<char>)
    ensures
        dec_identity(enc_identity(id) + rest) == Some((id, rest)),
{
    let t = enc_identity(id) + rest;
    match id {
        None => {
            lemma_starts_with_concat(spec_identity_none_line(), rest);
        },
        Some(s) => {
            lemma_dec_field_enc(spec_identity_prefix(), s, rest);
            assert(t =~= spec_identity_prefix() + (esc(s) + spec_quote_newline() + rest));
            lemma_starts_with_concat(
                spec_identity_prefix(),
                esc(s) + spec_quote_newline() + rest,
            );
            lemma_identity_prefixes_differ(t);
        },
    }
}

proof fn lemma_dec_server_enc(sv: ServerView, rest: Seq<char>)
    ensures
        dec_server(enc_server(sv) + rest) == Some((sv, rest)),
{
    let line_u = enc_field(spec_username_prefix(), sv.username);
    let line_h = enc_field(spec_host_prefix(), sv.host);
    let line_i = enc_identity(sv.identity);
    let t = enc_server(sv) + rest;
    assert(t =~= enc_field(spec_alias_prefix(), sv.alias) + (line_u + (line_h + (line_i
        + rest))));
    lemma_dec_field_enc(spec_alias_prefix(), sv.alias, line_u + (line_h + (line_i + rest)));
    lemma_dec_field_enc(spec_username_prefix(), sv.username, line_h + (line_i + rest));
    lemma_dec_field_enc(spec_host_prefix(), sv.host, line_i + rest);
    lemma_dec_identity_enc(sv.identity, rest);
}

proof fn lemma_enc_server_len(sv: ServerView)
    ensures
        enc_server(sv).len() > 0,
{
    reveal_strlit("- alias: \"");
    assert(spec_alias_prefix().len() == 10);
}

proof fn lemma_dec_servers_enc(ss: Seq<ServerView>)
    ensures
        dec_servers(enc_servers(ss)) == Some(ss),
    decreases ss.len(),
{
    if ss.len() == 0 {
        assert(enc_servers(ss).len() == 0);
        assert(Seq::<ServerView>::empty() =~= ss);
    } else {
        let t = enc_servers(ss);
        let tail_text = enc_servers(ss.skip(1));
        lemma_dec_server_enc(ss[0], tail_text);
        lemma_enc_server_len(ss[0]);
        assert(t.len() > 0);
        assert(dec_server(t) == Some((ss[0], tail_text)));
        assert(tail_text.len() < t.len());
        lemma_dec_servers_enc(ss.skip(1));
        assert(seq![ss[0]] + ss.skip(1) =~= ss);
    }
}

/// Law: the document codec round-trips. Encoding any store — any profile
/// sequence, duplicate aliases and absent or empty identities included — and
/// decoding the text yields exactly the same sequence again.
pub proof fn lemma_document_round_trip(ss: Seq<ServerView>)
    ensures
        dec_config(enc_config(ss)) == Some(ss),
{
    lemma_starts_with_concat(spec_header(), enc_servers(ss));
    lemma_dec_servers_enc(ss);
}

proof fn lemma_esc_push(s: Seq<char>, c: char)
    ensures
        esc(s.push(c)) == esc(s) + esc_char(c),
    decreases s.len(),
{
    if s.len() == 0 {
        assert(s =~= Seq::<char>::empty());
        assert(s.push(c) =~= seq![c]);
        assert(seq![c].skip(1) =~= Seq::<char>::empty());
        assert(esc(Seq::<char>::empty()) == Seq::<char>::empty());
        assert(esc(seq![c]) == esc_char(seq![c][0]) + esc(seq![c].skip(1)));
        assert(seq![c][0] == c);
        assert(esc(s.push(c)) =~= esc(s) + esc_char(c));
    } else {
        assert(s.push(c)[0] == s[0]);
        assert(s.push(c).skip(1) =~= s.skip(1).push(c));
        lemma_esc_push(s.skip(1), c);
        assert(esc_char(s[0]) + (esc(s.skip(1)) + esc_char(c)) =~= (esc_char(s[0]) + esc(
            s.skip(1),
        )) + esc_char(c));
    }
}

/// Appends the escaped form of `s` to `out`.
pub(crate) fn escape_into(out: &mut String, s: &str)
    ensures
        final(out)@ == old(out)@ + esc(s@),
{
    let ghost out0 = old(out)@;
    let n = s.unicode_len();
    let mut i: usize = 0;
    while i < n
        invariant
            n == s@.len(),
            i <= n,
            out@ == out0 + esc(s@.take(i as int)),
        decreases n - i,
    {
        let c = s.get_char(i);
        proof {
            assert(s@.take(i + 1) =~= s@.take(i as int).push(s@[i as int]));
            lemma_esc_push(s@.take(i as int), s@[i as int]);
        }
        if c == '\\' {
            out.append("\\\\");
            proof {
                reveal_strlit("\\\\");
                assert("\\\\"@ =~= esc_char(c));
                assert(out@ =~= out0 + esc(s@.take(i + 1)));
            }
        } else if c == '"' {
            out.append("\\\"");
            proof {
                reveal_strlit("\\\"");
                assert("\\\""@ =~= esc_char(c));
                assert(out@ =~= out0 + esc(s@.take(i + 1)));
            }
        } else if c == '\n' {
            out.append("\\n");
            proof {
                reveal_strlit("\\n");
                assert("\\n"@ =~= esc_char(c));
                assert(out@ =~= out0 + esc(s@.take(i + 1)));
            }
        } else {
            crate::text::push_char(out, c);
            proof {
                assert(seq![c] =~= esc_char(c));
                assert(out@ =~= out0 + esc(s@.take(i + 1)));
            }
        }
        i += 1;
    }
    proof {
        assert(s@.take(n as int) =~= s@);
    }
}

/// Appends one quoted field line to `out`.
fn write_field(out: &mut String, prefix: &str, v: &str)
    ensures
        final(out)@ == old(out)@ + enc_field(prefix@, v@),
{
    let ghost out0 = old(out)@;
    out.append(prefix);
    escape_into(out, v);
    out.append("\"\n");
    proof {
        assert(out@ =~= out0 + enc_field(prefix@, v@));
    }
}

/// Appends the four lines of one profile record to `out`.
pub(crate) fn write_server(out: &mut String, s: &crate::config::Server)
    ensures
        final(out)@ == old(out)@ + enc_server(s@),
{
    let ghost out0 = old(out)@;
    write_field(out, "- alias: \"", s.alias.as_str());
    write_field(out, "  username: \"", s.username.as_str());
    write_field(out, "  host: \"", s.host.as_str());
    match &s.identity {
        Some(id) => {
            write_field(out, "  identity: \"", id.as_str());
        },
        None => {
            out.append("  identity: ~\n");
        },
    }
    proof {
        assert(out@ =~= out0 + enc_server(s@));
    }
}

pub(crate) proof fn lemma_enc_servers_push(ss: Seq<ServerView>, sv: ServerView)
    ensures
        enc_servers(ss.push(sv)) == enc_servers(ss) + enc_server(sv),
    decreases ss.len(),
{
    if ss.len() == 0 {
        assert(ss =~= Seq::<ServerView>::empty());
        assert(ss.push(sv) =~= seq![sv]);
        assert(seq![sv].skip(1) =~= Seq::<ServerView>::empty());
        assert(enc_servers(Seq::<ServerView>::empty()) == Seq::<char>::empty());
        assert(enc_servers(seq![sv]) == enc_server(seq![sv][0]) + enc_servers(seq![sv].skip(1)));
        assert(seq![sv][0] == sv);
        assert(enc_servers(ss.push(sv)) =~= enc_servers(ss) + enc_server(sv));
    } else {
        assert(ss.push(sv)[0] == ss[0]);
        assert(ss.push(sv).skip(1) =~= ss.skip(1).push(sv));
        lemma_enc_servers_push(ss.skip(1), sv);
        assert(enc_server(ss[0]) + (enc_servers(ss.skip(1)) + enc_server(sv)) =~= (enc_server(
            ss[0],
        ) + enc_servers(ss.skip(1))) + enc_server(sv));
    }
}

/// Reads a quoted value starting at character `pos`, mirroring [`dec_qstr`].
fn parse_qstr(s: &str, pos: usize, n: usize) -> (r: Option<(String, usize)>)
    requires
        pos <= n,
        n == s@.len(),
    ensures
        match r {
            Some(p) => pos < p.1 <= n && dec_qstr(s@.skip(pos as int)) == Some(
                (p.0@, s@.skip(p.1 as int)),
            ),
            None => dec_qstr(s@.skip(pos as int)) is None,
        },
    decreases n - pos,
{
    let ghost t = s@.skip(pos as int);
    if pos == n {
        proof {
            assert(t.len() == 0);
        }
        return None;
    }
    let c = s.get_char(pos);
    proof {
        assert(t[0] == s@[pos as int]);
    }
    if c == '"' {
        proof {
            assert(t.skip(1) =~= s@.skip(pos + 1));
        }
        return Some((String::new(), pos + 1));
    }
    if c == '\\' {
        if pos + 1 == n {
            proof {
                assert(t.len() < 2);
            }
            return None;
        }
        let c2 = s.get_char(pos + 1);
        proof {
            assert(t[1] == s@[pos + 1]);
        }
        if c2 == 'n' || c2 == '\\' || c2 == '"' {
            let u = if c2 == 'n' {
                '\n'
            } else {
                c2
            };
            proof {
                assert(u == unescape_char(t[1]));
                assert(t.skip(2) =~= s@.skip(pos + 2));
            }
            match parse_qstr(s, pos + 2, n) {
                Some((tail, end)) => {
                    let mut out = String::new();
                    crate::text::push_char(&mut out, u);
                    out.append(tail.as_str());
                    proof {
                        assert(out@ =~= seq![unescape_char(t[1])] + tail@);
                    }
                    Some((out, end))
                },
                None => None,
            }
        } else {
            None
        }
    } else if c == '\n' {
        None
    } else {
        proof {
            assert(t.skip(1) =~= s@.skip(pos + 1));
        }
        match parse_qstr(s, pos + 1, n) {
            Some((tail, end)) => {
                let mut out = String::new();
                crate::text::push_char(&mut out, c);
                out.append(tail.as_str());
                proof {
                    assert(out@ =~= seq![t[0]] + tail@);
                }
                Some((out, end))
            },
            None => None,
        }
    }
}

/// Reads one quoted field line with the given prefix, mirroring [`dec_field`].
fn parse_field(s: &str, pos: usize, n: usize, prefix: &str) -> (r: Option<(String, usize)>)
    requires
        pos <= n,
        n == s@.len(),
    ensures
        match r {
            Some(p) => pos < p.1 <= n && dec_field(prefix@, s@.skip(pos as int)) == Some(
                (p.0@, s@.skip(p.1 as int)),
            ),
            None => dec_field(prefix@, s@.skip(pos as int)) is None,
        },
{
    let ghost t = s@.skip(pos as int);
    let ok = crate::text::match_at(s, pos, prefix);
    proof {
        if pos + prefix@.len() <= n {
            assert(t.take(prefix@.len() as int) =~= s@.subrange(
                pos as int,
                pos + prefix@.len(),
            ));
        }
        assert(ok == starts_with(t, prefix@));
    }
    if !ok {
        return None;
    }
    let plen = prefix.unicode_len();
    let start = pos + plen;
    proof {
        assert(t.skip(prefix@.len() as int) =~= s@.skip(start as int));
    }
    match parse_qstr(s, start, n) {
        None => None,
        Some((v, end)) => {
            if end == n {
                proof {
                    assert(s@.skip(end as int).len() == 0);
                }
                return None;
            }
            let c = s.get_char(end);
            proof {
                assert(s@.skip(end as int)[0] == s@[end as int]);
            }
            if c == '\n' {
                proof {
                    assert(s@.skip(end as int).skip(1) =~= s@.skip(end + 1));
                }
                Some((v, end + 1))
            } else {
                None
            }
        },
    }
}

/// Reads a profile's identity line, quoted or `~`, mirroring [`dec_identity`].
fn parse_identity(s: &str, pos: usize, n: usize) -> (r: Option<(Option<String>, usize)>)
    requires
        pos <= n,
        n == s@.len(),
    ensures
        match r {
            Some(p) => pos < p.1 <= n && dec_identity(s@.skip(pos as int)) == Some(
                (crate::opt_str_view(p.0), s@.skip(p.1 as int)),
            ),
            None => dec_identity(s@.skip(pos as int)) is None,
        },
{
    let ghost t = s@.skip(pos as int);
    let none_pat = "  identity: ~\n";
    let ok = crate::text::match_at(s, pos, none_pat);
    proof {
        reveal_strlit("  identity: ~\n");
        assert(spec_identity_none_line().len() == 14);
        if pos + spec_identity_none_line().len() <= n {
            assert(t.take(spec_identity_none_line().len() as int) =~= s@.subrange(
                pos as int,
                pos + spec_identity_none_line().len(),
            ));
        }
        assert(ok == starts_with(t, spec_identity_none_line()));
    }
    if ok {
        let end = pos + none_pat.unicode_len();
        proof {
            assert(t.skip(spec_identity_none_line().len() as int) =~= s@.skip(end as int));
        }
        return Some((None, end));
    }
    match parse_field(s, pos, n, "  identity: \"") {
        Some((v, end)) => Some((Some(v), end)),
        None => None,
    }
}

/// Reads the four lines of one profile record, mirroring [`dec_server`].
fn parse_server(s: &str, pos: usize, n: usize) -> (r: Option<(crate::config::Server, usize)>)
    requires
        pos <= n,
        n == s@.len(),
    ensures
        match r {
            Some(p) => pos < p.1 <= n && dec_server(s@.skip(pos as int)) == Some(
                (p.0@, s@.skip(p.1 as int)),
            ),
            None => dec_server(s@.skip(pos as int)) is None,
        },
{
    match parse_field(s, pos, n, "- alias: \"") {
        None => None,
        Some((alias, p1)) => match parse_field(s, p1, n, "  username: \"") {
            None => None,
            Some((username, p2)) => match parse_field(s, p2, n, "  host: \"") {
                None => None,
                Some((host, p3)) => match parse_identity(s, p3, n) {
                    None => None,
                    Some((identity, p4)) => {
                        let server = crate::config::Server { alias, username, host, identity };
                        Some((server, p4))
                    },
                },
            },
        },
    }
}

spec fn servers_cont(a: Seq<ServerView>, t: Seq<char>) -> Option<Seq<ServerView>> {
    match dec_servers(t) {
        Some(tail) => Some(a + tail),
        None => None,
    }
}

/// Reads profile records from `pos` to the end of the text, mirroring
/// [`dec_servers`].
pub(crate) fn parse_servers(s: &str, pos: usize, n: usize) -> (r: Option<
    Vec<crate::config::Server>,
>)
    requires
        pos <= n,
        n == s@.len(),
    ensures
        match r {
            Some(v) => dec_servers(s@.skip(pos as int)) == Some(
                v@.map_values(|x: crate::config::Server| x@),
            ),
            None => dec_servers(s@.skip(pos as int)) is None,
        },
{
    let mut acc: Vec<crate::config::Server> = Vec::new();
    let mut i: usize = pos;
    proof {
        assert(acc@.map_values(|x: crate::config::Server| x@) =~= Seq::<ServerView>::empty());
    }
    while i < n
        invariant
            pos <= i <= n,
            n == s@.len(),
            servers_cont(acc@.map_values(|x: crate::config::Server| x@), s@.skip(i as int))
                == dec_servers(s@.skip(pos as int)),
        decreases n - i,
    {
        let ghost ti = s@.skip(i as int);
        let ghost accv = acc@.map_values(|x: crate::config::Server| x@);
        match parse_server(s, i, n) {
            None => {
                proof {
                    assert(ti.len() > 0);
                    assert(dec_servers(ti) is None);
                }
                return None;
            },
            Some((srv, end)) => {
                proof {
                    assert(dec_server(ti) == Some((srv@, s@.skip(end as int))));
                    assert(s@.skip(end as int).len() < ti.len());
                }
                acc.push(srv);
                i = end;
                proof {
                    assert(acc@.map_values(|x: crate::config::Server| x@) =~= accv.push(srv@));
                    if dec_servers(s@.skip(i as int)) is Some {
                        let tail = dec_servers(s@.skip(i as int)).unwrap();
                        assert(accv + (seq![srv@] + tail) =~= accv.push(srv@) + tail);
                    }
                }
            },
        }
    }
    proof {
        assert(s@.skip(i as int).len() == 0);
        assert(acc@.map_values(|x: crate::config::Server| x@) + Seq::<ServerView>::empty()
            =~= acc@.map_values(|x: crate::config::Server| x@));
    }
    Some(acc)
}

} // verus!
