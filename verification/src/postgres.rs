//! The statement that sets the password of the `postgres` superuser.
use vstd::prelude::*;
use crate::text::{concat, string_of, to_chars};
use crate::tool::Tool;

verus! {

broadcast use vstd::string::group_string_axioms;

/// A character as it stands inside a single-quoted SQL literal.
pub open spec fn escape_char(c: char) -> Seq<char> {
    if c == '\'' {
        seq!['\'', '\'']
    } else {
        seq![c]
    }
}

/// `s` with every single quote doubled.
pub open spec fn escape_quotes(s: Seq<char>) -> Seq<char>
    decreases s.len(),
{
    if s.len() == 0 {
        Seq::empty()
    } else {
        escape_char(s[0]) + escape_quotes(s.drop_first())
    }
}

/// Reading back the body of a single-quoted SQL literal: `''` stands for `'`.
pub open spec fn unescape_quotes(s: Seq<char>) -> Seq<char>
    decreases s.len(),
{
    if s.len() == 0 {
        Seq::empty()
    } else if s.len() >= 2 && s[0] == '\'' && s[1] == '\'' {
        seq!['\''] + unescape_quotes(s.skip(2))
    } else {
        seq![s[0]] + unescape_quotes(s.drop_first())
    }
}

/// `ALTER USER postgres WITH PASSWORD '<password>';` with quotes doubled.
pub open spec fn spec_password_sql(password: Seq<char>) -> Seq<char> {
    "ALTER USER postgres WITH PASSWORD '"@ + escape_quotes(password) + "';"@
}

proof fn lemma_escape_concat(a: Seq<char>, b: Seq<char>)
    ensures
        escape_quotes(a + b) == escape_quotes(a) + escape_quotes(b),
    decreases a.len(),
{
    if a.len() == 0 {
        assert(a + b =~= b);
        assert(escape_quotes(a) =~= Seq::<char>::empty());
        assert(Seq::<char>::empty() + escape_quotes(b) =~= escape_quotes(b));
    } else {
        lemma_escape_concat(a.drop_first(), b);
        assert((a + b).drop_first() =~= a.drop_first() + b);
        assert((a + b)[0] == a[0]);
        assert(escape_char(a[0]) + (escape_quotes(a.drop_first()) + escape_quotes(b))
            =~= (escape_char(a[0]) + escape_quotes(a.drop_first())) + escape_quotes(b));
    }
}

/// Doubles every single quote of `s`.
pub fn escape_single_quotes(s: &str) -> (r: String)
    ensures
        r@ == escape_quotes(s@),
{
    let v = to_chars(s);
    let mut out: Vec<char> = Vec::new();
    let mut i: usize = 0;
    while i < v.len()
        invariant
            i <= v.len(),
            out@ == escape_quotes(v@.take(i as int)),
        decreases v.len() - i,
    {
        let c = v[i];
        out.push(c);
        if c == '\'' {
            out.push('\'');
        }
        proof {
            assert(v@.take(i + 1) =~= v@.take(i as int) + seq![c]);
            lemma_escape_concat(v@.take(i as int), seq![c]);
            assert(seq![c].drop_first() =~= Seq::<char>::empty());
            assert(escape_quotes(seq![c]) =~= escape_char(c) + escape_quotes(Seq::<char>::empty()));
            assert(escape_quotes(Seq::<char>::empty()) =~= Seq::<char>::empty());
            assert(out@ =~= escape_quotes(v@.take(i as int)) + escape_char(c));
        }
        i += 1;
    }
    assert(v@.take(v.len() as int) == v@);
    string_of(&out)
}

/// The SQL statement that sets the `postgres` superuser's password.
pub fn password_sql(password: &str) -> (r: String)
    ensures
        r@ == spec_password_sql(password@),
{
    let escaped = escape_single_quotes(password);
    let head = concat("ALTER USER postgres WITH PASSWORD '", escaped.as_str());
    concat(head.as_str(), "';")
}

/// The value of a post-install prompt turned into the statement the tool's
/// configuration runs: for PostgreSQL, setting the superuser password;
/// other tools have nothing to run.
pub fn post_install_sql(tool: Tool, value: &str) -> (r: Option<String>)
    ensures
        match r {
            Some(s) => tool == Tool::Postgres && s@ == spec_password_sql(value@),
            None => tool != Tool::Postgres,
        },
{
    match tool {
        Tool::Postgres => Some(password_sql(value)),
        _ => None,
    }
}

/// Law: doubling quotes can be undone, so the literal holds exactly the
/// password, whatever quotes it contains.
pub proof fn law_escape_round_trip(s: Seq<char>)
    ensures
        unescape_quotes(escape_quotes(s)) == s,
    decreases s.len(),
{
    if s.len() > 0 {
        law_escape_round_trip(s.drop_first());
        let e = escape_quotes(s);
        let rest = escape_quotes(s.drop_first());
        if s[0] == '\'' {
            assert(e == seq!['\'', '\''] + rest);
            assert(e.skip(2) =~= rest);
            assert(seq!['\''] + s.drop_first() =~= s);
        } else {
            assert(e == seq![s[0]] + rest);
            assert(e.drop_first() =~= rest);
            assert(seq![s[0]] + s.drop_first() =~= s);
        }
    } else {
        assert(escape_quotes(s) =~= Seq::<char>::empty());
    }
}

} // verus!
