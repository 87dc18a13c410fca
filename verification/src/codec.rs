//! The persisted document format and its proved round trip.
//!
//! A profile list is stored as one flat text document: each profile is six
//! fields in a fixed order, every string field terminated by `;` with `\`
//! escaping, booleans as `t`/`f`, optional fields tagged `s`/`n`.  An empty
//! document is the empty list.  `parse_profiles` inverts `encode_profiles`
//! exactly, so a store written and reloaded is the same store.

use vstd::prelude::*;
use crate::profiles::{Profile, ProfileView, ProfilesContent};
use crate::util::{chars_of, string_from_chars};

verus! {

/// The stored document is unreadable as a profile list.
#[derive(Clone, Copy, Debug, PartialEq, Eq, Structural)]
pub struct StoreReadError;

/// Characters that carry structure in the document and are escaped in
/// field values.
pub open spec fn must_escape(c: char) -> bool {
    c == '\\' || c == ';'
}

/// One field character as it appears in the document.
pub open spec fn encode_char(c: char) -> Seq<char> {
    if must_escape(c) {
        seq!['\\', c]
    } else {
        seq![c]
    }
}

/// A field's characters, escaped, without the terminator.
pub open spec fn encode_chars(s: Seq<char>) -> Seq<char>
    decreases s.len(),
{
    if s.len() == 0 {
        Seq::empty()
    } else {
        encode_char(s[0]) + encode_chars(s.drop_first())
    }
}

/// A string field: escaped characters, closed by `;`.
pub open spec fn encode_str(s: Seq<char>) -> Seq<char> {
    encode_chars(s) + seq![';']
}

/// A boolean field.
pub open spec fn encode_bool(b: bool) -> Seq<char> {
    if b {
        seq!['t']
    } else {
        seq!['f']
    }
}

/// An optional string field: `n`, or `s` followed by the string.
pub open spec fn encode_opt(o: Option<Seq<char>>) -> Seq<char> {
    match o {
        Option::None => seq!['n'],
        Option::Some(s) => seq!['s'] + encode_str(s),
    }
}

/// One profile: name, user, email, signing, key, ssh key, in this order.
pub open spec fn encode_profile(p: ProfileView) -> Seq<char> {
    encode_str(p.name) + encode_str(p.user) + encode_str(p.email) + encode_bool(p.signing)
        + encode_opt(p.key) + encode_opt(p.ssh_key)
}

/// The whole document: the profiles one after the other.
pub open spec fn encode_profiles(ps: Seq<ProfileView>) -> Seq<char>
    decreases ps.len(),
{
    if ps.len() == 0 {
        Seq::empty()
    } else {
        encode_profile(ps[0]) + encode_profiles(ps.drop_first())
    }
}

/// Read one string field; yields the field and the unread remainder.
pub open spec fn parse_str(s: Seq<char>) -> Option<(Seq<char>, Seq<char>)>
    decreases s.len(),
{
    if s.len() == 0 {
        None
    } else if s[0] == ';' {
        Some((Seq::empty(), s.drop_first()))
    } else if s[0] == '\\' {
        if s.len() < 2 {
            None
        } else {
            match parse_str(s.skip(2)) {
                None => None,
                Some((v, r)) => Some((seq![s[1]] + v, r)),
            }
        }
    } else {
        match parse_str(s.drop_first()) {
            None => None,
            Some((v, r)) => Some((seq![s[0]] + v, r)),
        }
    }
}

/// Read one boolean field.
pub open spec fn parse_bool(s: Seq<char>) -> Option<(bool, Seq<char>)> {
    if s.len() == 0 {
        None
    } else if s[0] == 't' {
        Some((true, s.drop_first()))
    } else if s[0] == 'f' {
        Some((false, s.drop_first()))
    } else {
        None
    }
}

/// Read one optional string field.
pub open spec fn parse_opt(s: Seq<char>) -> Option<(Option<Seq<char>>, Seq<char>)> {
    if s.len() == 0 {
        None
    } else if s[0] == 'n' {
        Some((None, s.drop_first()))
    } else if s[0] == 's' {
        match parse_str(s.drop_first()) {
            None => None,
            Some((v, r)) => Some((Some(v), r)),
        }
    } else {
        None
    }
}

/// Read one profile record.
pub open spec fn parse_profile(s: Seq<char>) -> Option<(ProfileView, Seq<char>)> {
    match parse_str(s) {
        None => None,
        Some((name, s1)) => match parse_str(s1) {
            None => None,
            Some((user, s2)) => match parse_str(s2) {
                None => None,
                Some((email, s3)) => match parse_bool(s3) {
                    None => None,
                    Some((signing, s4)) => match parse_opt(s4) {
                        None => None,
                        Some((key, s5)) => match parse_opt(s5) {
                            None => None,
                            Some((ssh_key, s6)) => Some(
                                (ProfileView { name, user, email, signing, key, ssh_key }, s6),
                            ),
                        },
                    },
                },
            },
        },
    }
}

/// Read the whole document: profile records until the input ends.
pub open spec fn parse_profiles(s: Seq<char>) -> Option<Seq<ProfileView>>
    decreases s.len(),
{
    if s.len() == 0 {
        Some(Seq::empty())
    } else {
        match parse_profile(s) {
            None => None,
            Some((p, r)) => if r.len() < s.len() {
                match parse_profiles(r) {
                    None => None,
                    Some(ps) => Some(seq![p] + ps),
                }
            } else {
                None
            },
        }
    }
}

/// Escaping distributes over concatenation.
proof fn lemma_encode_chars_app(a: Seq<char>, b: Seq<char>)
    ensures
        encode_chars(a + b) == encode_chars(a) + encode_chars(b),
    decreases a.len(),
{
    if a.len() == 0 {
        assert(a + b =~= b);
        assert(encode_chars(a) + encode_chars(b) =~= encode_chars(b));
    } else {
        assert((a + b)[0] == a[0]);
        assert((a + b).drop_first() =~= a.drop_first() + b);
        lemma_encode_chars_app(a.drop_first(), b);
        assert(encode_char(a[0]) + (encode_chars(a.drop_first()) + encode_chars(b)) =~= (
        encode_char(a[0]) + encode_chars(a.drop_first())) + encode_chars(b));
    }
}

/// Escaping one appended character.
proof fn lemma_encode_chars_snoc(s: Seq<char>, c: char)
    ensures
        encode_chars(s.push(c)) == encode_chars(s) + encode_char(c),
{
    reveal_with_fuel(encode_chars, 3);
    assert(s.push(c) =~= s + seq![c]);
    lemma_encode_chars_app(s, seq![c]);
    assert(seq![c].drop_first() =~= Seq::<char>::empty());
    assert(encode_chars(seq![c].drop_first()) =~= Seq::<char>::empty());
    assert(encode_chars(seq![c]) =~= encode_char(c));
}

/// Reading a string field out of its encoding yields the field back and
/// leaves exactly the trailing input.
proof fn lemma_parse_str_encode(s: Seq<char>, rest: Seq<char>)
    ensures
        parse_str(encode_str(s) + rest) == Some((s, rest)),
    decreases s.len(),
{
    let t = encode_str(s) + rest;
    if s.len() == 0 {
        assert(encode_chars(s) =~= Seq::<char>::empty());
        assert(t =~= seq![';'] + rest);
        assert(t[0] == ';');
        assert(t.drop_first() =~= rest);
        assert(parse_str(t) == Some((Seq::<char>::empty(), rest)));
        assert(s =~= Seq::<char>::empty());
    } else {
        let c = s[0];
        let s1 = s.drop_first();
        lemma_parse_str_encode(s1, rest);
        if must_escape(c) {
            assert(t =~= seq!['\\', c] + (encode_str(s1) + rest));
            assert(t[0] == '\\');
            assert(t.len() >= 2);
            assert(t[1] == c);
            assert(t.skip(2) =~= encode_str(s1) + rest);
            assert(parse_str(t) == Some((seq![c] + s1, rest)));
            assert(seq![c] + s1 =~= s);
        } else {
            assert(t =~= seq![c] + (encode_str(s1) + rest));
            assert(t[0] == c);
            assert(t.drop_first() =~= encode_str(s1) + rest);
            assert(parse_str(t) == Some((seq![c] + s1, rest)));
            assert(seq![c] + s1 =~= s);
        }
    }
}

/// The boolean analogue.
proof fn lemma_parse_bool_encode(b: bool, rest: Seq<char>)
    ensures
        parse_bool(encode_bool(b) + rest) == Some((b, rest)),
{
    let t = encode_bool(b) + rest;
    assert(t[0] == if b { 't' } else { 'f' });
    assert(t.drop_first() =~= rest);
}

/// The optional-field analogue.
proof fn lemma_parse_opt_encode(o: Option<Seq<char>>, rest: Seq<char>)
    ensures
        parse_opt(encode_opt(o) + rest) == Some((o, rest)),
{
    let t = encode_opt(o) + rest;
    match o {
        Option::None => {
            assert(t[0] == 'n');
            assert(t.drop_first() =~= rest);
        },
        Option::Some(s) => {
            assert(t[0] == 's');
            assert(t.drop_first() =~= encode_str(s) + rest);
            lemma_parse_str_encode(s, rest);
        },
    }
}

/// Reading a record out of its encoding yields the record back.
proof fn lemma_parse_profile_encode(p: ProfileView, rest: Seq<char>)
    ensures
        parse_profile(encode_profile(p) + rest) == Some((p, rest)),
{
    let t5 = encode_opt(p.ssh_key) + rest;
    let t4 = encode_opt(p.key) + t5;
    let t3 = encode_bool(p.signing) + t4;
    let t2 = encode_str(p.email) + t3;
    let t1 = encode_str(p.user) + t2;
    let t = encode_str(p.name) + t1;
    assert(encode_profile(p) + rest =~= t);
    lemma_parse_str_encode(p.name, t1);
    lemma_parse_str_encode(p.user, t2);
    lemma_parse_str_encode(p.email, t3);
    lemma_parse_bool_encode(p.signing, t4);
    lemma_parse_opt_encode(p.key, t5);
    lemma_parse_opt_encode(p.ssh_key, rest);
}

/// Law: a stored profile list reloads as exactly the same list, in the same
/// order.
pub proof fn lemma_document_round_trip(ps: Seq<ProfileView>)
    ensures
        parse_profiles(encode_profiles(ps)) == Some(ps),
    decreases ps.len(),
{
    if ps.len() == 0 {
        assert(encode_profiles(ps) =~= Seq::<char>::empty());
    } else {
        let tail = encode_profiles(ps.drop_first());
        lemma_parse_profile_encode(ps[0], tail);
        lemma_document_round_trip(ps.drop_first());
        let t = encode_profiles(ps);
        assert(t == encode_profile(ps[0]) + tail);
        assert(encode_str(ps[0].name).len() >= 1);
        assert(encode_profile(ps[0]).len() >= 1);
        assert(t.len() > tail.len());
        assert(seq![ps[0]] + ps.drop_first() =~= ps);
    }
}

/// Append the encoding of one string field.
fn push_encoded_str(out: &mut Vec<char>, s: &str)
    ensures
        final(out)@ == old(out)@ + encode_str(s@),
{
    let cs = chars_of(s);
    let n = cs.len();
    let mut i: usize = 0;
    proof {
        assert(s@.take(0) =~= Seq::<char>::empty());
        assert(encode_chars(s@.take(0)) =~= Seq::<char>::empty());
        assert(out@ + encode_chars(s@.take(0)) =~= out@);
    }
    while i < n
        invariant
            n == cs@.len(),
            cs@ == s@,
            i <= n,
            out@ == old(out)@ + encode_chars(s@.take(i as int)),
        decreases n - i,
    {
        proof {
            lemma_encode_chars_snoc(s@.take(i as int), s@[i as int]);
            assert(s@.take(i + 1 as int) =~= s@.take(i as int).push(s@[i as int]));
        }
        let ghost prev = out@;
        let c = cs[i];
        if c == '\\' || c == ';' {
            out.push('\\');
            out.push(c);
            proof {
                assert(out@ =~= prev + encode_char(s@[i as int]));
            }
        } else {
            out.push(c);
            proof {
                assert(out@ =~= prev + encode_char(s@[i as int]));
            }
        }
        proof {
            assert(out@ =~= old(out)@ + encode_chars(s@.take(i + 1 as int)));
        }
        i += 1;
    }
    proof {
        assert(s@.take(n as int) =~= s@);
    }
    out.push(';');
    proof {
        assert(out@ =~= old(out)@ + encode_str(s@));
    }
}

/// Append the encoding of one optional string field.
fn push_encoded_opt(out: &mut Vec<char>, o: &Option<String>)
    ensures
        final(out)@ == old(out)@ + encode_opt(o.deep_view()),
{
    match o {
        None => {
            out.push('n');
            proof {
                assert(out@ =~= old(out)@ + encode_opt(None));
            }
        },
        Some(s) => {
            let ghost prev = out@;
            out.push('s');
            push_encoded_str(out, s.as_str());
            proof {
                assert(out@ =~= old(out)@ + encode_opt(Some(s@)));
            }
        },
    }
}

/// Append the encoding of one profile record.
fn push_encoded_profile(out: &mut Vec<char>, p: &Profile)
    ensures
        final(out)@ == old(out)@ + encode_profile(p@),
{
    push_encoded_str(out, p.name.as_str());
    push_encoded_str(out, p.user.as_str());
    push_encoded_str(out, p.email.as_str());
    if p.signing {
        out.push('t');
    } else {
        out.push('f');
    }
    push_encoded_opt(out, &p.key);
    push_encoded_opt(out, &p.ssh_key);
    proof {
        assert(out@ =~= old(out)@ + encode_profile(p@));
    }
}

/// Encoding distributes over appending one profile to the list.
proof fn lemma_encode_profiles_snoc(ps: Seq<ProfileView>, p: ProfileView)
    ensures
        encode_profiles(ps.push(p)) == encode_profiles(ps) + encode_profile(p),
    decreases ps.len(),
{
    reveal_with_fuel(encode_profiles, 3);
    if ps.len() == 0 {
        assert(ps.push(p)[0] == p);
        assert(ps.push(p).drop_first() =~= Seq::<ProfileView>::empty());
        assert(encode_profiles(ps.push(p).drop_first()) =~= Seq::<char>::empty());
        assert(encode_profiles(ps.push(p)) =~= encode_profile(p));
        assert(encode_profiles(ps) =~= Seq::<char>::empty());
        assert(encode_profiles(ps) + encode_profile(p) =~= encode_profile(p));
    } else {
        assert(ps.push(p)[0] == ps[0]);
        assert(ps.push(p).drop_first() =~= ps.drop_first().push(p));
        lemma_encode_profiles_snoc(ps.drop_first(), p);
        assert(encode_profile(ps[0]) + (encode_profiles(ps.drop_first()) + encode_profile(p)) =~= (
        encode_profile(ps[0]) + encode_profiles(ps.drop_first())) + encode_profile(p));
    }
}

impl ProfilesContent {
    /// Encode the whole list as the document text.
    pub fn to_document(&self) -> (doc: Vec<char>)
        ensures
            doc@ == encode_profiles(self@),
    {
        let mut doc: Vec<char> = Vec::new();
        let n = self.profiles.len();
        let mut i: usize = 0;
        proof {
            assert(self@.take(0) =~= Seq::<ProfileView>::empty());
            assert(doc@ =~= encode_profiles(self@.take(0)));
        }
        while i < n
            invariant
                n == self.profiles.len(),
                i <= n,
                doc@ == encode_profiles(self@.take(i as int)),
            decreases n - i,
        {
            proof {
                assert(self@[i as int] == self.profiles@[i as int].deep_view());
                assert(self@.take(i + 1 as int) =~= self@.take(i as int).push(self@[i as int]));
                lemma_encode_profiles_snoc(self@.take(i as int), self@[i as int]);
            }
            push_encoded_profile(&mut doc, &self.profiles[i]);
            i += 1;
        }
        proof {
            assert(self@.take(n as int) =~= self@);
        }
        doc
    }

    /// Decode a document; `Err` exactly on text that is not an encoded
    /// profile list.
    pub fn from_document(doc: &Vec<char>) -> (r: Result<ProfilesContent, StoreReadError>)
        ensures
            (match r {
                Ok(c) => parse_profiles(doc@) == Some(c@),
                Err(_) => parse_profiles(doc@) is None,
            }),
    {
        let n = doc.len();
        let mut pos: usize = 0;
        let mut out: Vec<Profile> = Vec::new();
        proof {
            assert(doc@.skip(0) =~= doc@);
            assert(out.deep_view() =~= Seq::<ProfileView>::empty());
        }
        while pos < n
            invariant
                n == doc@.len(),
                pos <= n,
                (parse_profiles(doc@) == match parse_profiles(doc@.skip(pos as int)) {
                    None => None::<Seq<ProfileView>>,
                    Some(ps) => Some(out.deep_view() + ps),
                }),
            decreases n - pos,
        {
            let ghost s_pos = doc@.skip(pos as int);
            match parse_profile_at(doc, pos) {
                None => {
                    proof {
                        assert(s_pos.len() > 0);
                        assert(parse_profiles(s_pos) is None);
                    }
                    return Err(StoreReadError);
                },
                Some((p, p2)) => {
                    let ghost s_next = doc@.skip(p2 as int);
                    proof {
                        assert(s_next.len() < s_pos.len());
                        assert(parse_profiles(s_pos) == (match parse_profiles(s_next) {
                            None => None::<Seq<ProfileView>>,
                            Some(ps) => Some(seq![p@] + ps),
                        }));
                    }
                    let ghost prev = out.deep_view();
                    let ghost prevv = out@;
                    proof {
                        assert(prev.len() == out@.len());
                    }
                    out.push(p);
                    proof {
                        let od = out.deep_view();
                        let ov = out@;
                        assert(ov == prevv.push(ov[prevv.len() as int]));
                        assert(od.len() == prev.len() + 1);
                        assert forall|j: int| 0 <= j < od.len() implies od[j] == prev.push(
                            ov[prevv.len() as int]@,
                        )[j] by {
                            assert(od[j] == ov[j].deep_view());
                            if j < prevv.len() {
                                assert(ov[j] == prevv[j]);
                                assert(prev[j] == prevv[j].deep_view());
                            }
                        }
                        assert(od =~= prev.push(ov[prevv.len() as int]@));
                        if parse_profiles(s_next) is Some {
                            let ps = parse_profiles(s_next).unwrap();
                            assert(prev + (seq![od[prev.len() as int]] + ps) =~= od + ps);
                        }
                    }
                    pos = p2;
                },
            }
        }
        proof {
            assert(doc@.skip(n as int) =~= Seq::<char>::empty());
            assert(parse_profiles(doc@.skip(n as int)) == Some(Seq::<ProfileView>::empty()));
            assert(out.deep_view() + Seq::<ProfileView>::empty() =~= out.deep_view());
        }
        let c = ProfilesContent { profiles: out };
        Ok(c)
    }
}

/// Read one string field of the document, starting at `pos`.
fn parse_str_at(doc: &Vec<char>, pos: usize) -> (r: Option<(Vec<char>, usize)>)
    requires
        pos <= doc@.len(),
    ensures
        (match r {
            Some(vp) => pos < vp.1 <= doc@.len() && parse_str(doc@.skip(pos as int)) == Some(
                (vp.0@, doc@.skip(vp.1 as int)),
            ),
            None => parse_str(doc@.skip(pos as int)) is None,
        }),
{
    let n = doc.len();
    let mut i: usize = pos;
    let mut out: Vec<char> = Vec::new();
    proof {
        assert(out@ =~= Seq::<char>::empty());
    }
    while i < n
        invariant
            n == doc@.len(),
            pos <= i <= n,
            (parse_str(doc@.skip(pos as int)) == match parse_str(doc@.skip(i as int)) {
                None => None::<(Seq<char>, Seq<char>)>,
                Some(vr) => Some((out@ + vr.0, vr.1)),
            }),
        decreases n - i,
    {
        let ghost s_i = doc@.skip(i as int);
        proof {
            assert(s_i[0] == doc@[i as int]);
            assert(s_i.drop_first() =~= doc@.skip(i + 1 as int));
        }
        let c = doc[i];
        if c == ';' {
            proof {
                assert(parse_str(s_i) == Some((Seq::<char>::empty(), doc@.skip(i + 1 as int))));
                assert(out@ + Seq::<char>::empty() =~= out@);
            }
            return Some((out, i + 1));
        } else if c == '\\' {
            if n - i < 2 {
                proof {
                    assert(s_i.len() < 2);
                    assert(parse_str(s_i) is None);
                }
                return None;
            }
            proof {
                assert(s_i[1] == doc@[i + 1 as int]);
                assert(s_i.skip(2) =~= doc@.skip(i + 2 as int));
            }
            let ghost prev = out@;
            out.push(doc[i + 1]);
            proof {
                let s_n = doc@.skip(i + 2 as int);
                if parse_str(s_n) is Some {
                    let v2 = parse_str(s_n).unwrap().0;
                    assert(parse_str(s_i) == Some((seq![doc@[i + 1 as int]] + v2, parse_str(
                        s_n,
                    ).unwrap().1)));
                    assert(out@ + v2 =~= prev + (seq![doc@[i + 1 as int]] + v2));
                } else {
                    assert(parse_str(s_i) is None);
                }
            }
            i += 2;
        } else {
            let ghost prev = out@;
            out.push(c);
            proof {
                let s_n = doc@.skip(i + 1 as int);
                if parse_str(s_n) is Some {
                    let v2 = parse_str(s_n).unwrap().0;
                    assert(parse_str(s_i) == Some((seq![doc@[i as int]] + v2, parse_str(
                        s_n,
                    ).unwrap().1)));
                    assert(out@ + v2 =~= prev + (seq![doc@[i as int]] + v2));
                } else {
                    assert(parse_str(s_i) is None);
                }
            }
            i += 1;
        }
    }
    proof {
        assert(doc@.skip(n as int) =~= Seq::<char>::empty());
        assert(parse_str(doc@.skip(n as int)) is None);
    }
    None
}

/// Read one boolean field of the document.
fn parse_bool_at(doc: &Vec<char>, pos: usize) -> (r: Option<(bool, usize)>)
    requires
        pos <= doc@.len(),
    ensures
        (match r {
            Some(vp) => pos < vp.1 <= doc@.len() && parse_bool(doc@.skip(pos as int)) == Some(
                (vp.0, doc@.skip(vp.1 as int)),
            ),
            None => parse_bool(doc@.skip(pos as int)) is None,
        }),
{
    let ghost s = doc@.skip(pos as int);
    if pos >= doc.len() {
        return None;
    }
    proof {
        assert(s[0] == doc@[pos as int]);
        assert(s.drop_first() =~= doc@.skip(pos + 1 as int));
    }
    let c = doc[pos];
    if c == 't' {
        Some((true, pos + 1))
    } else if c == 'f' {
        Some((false, pos + 1))
    } else {
        None
    }
}

/// Read one optional string field of the document.
fn parse_opt_at(doc: &Vec<char>, pos: usize) -> (r: Option<(Option<Vec<char>>, usize)>)
    requires
        pos <= doc@.len(),
    ensures
        (match r {
            Some(vp) => pos < vp.1 <= doc@.len() && parse_opt(doc@.skip(pos as int)) == Some(
                (vp.0.deep_view(), doc@.skip(vp.1 as int)),
            ),
            None => parse_opt(doc@.skip(pos as int)) is None,
        }),
{
    let ghost s = doc@.skip(pos as int);
    if pos >= doc.len() {
        return None;
    }
    proof {
        assert(s[0] == doc@[pos as int]);
        assert(s.drop_first() =~= doc@.skip(pos + 1 as int));
    }
    let c = doc[pos];
    if c == 'n' {
        Some((None, pos + 1))
    } else if c == 's' {
        match parse_str_at(doc, pos + 1) {
            None => None,
            Some((v, p2)) => Some((Some(v), p2)),
        }
    } else {
        None
    }
}

/// Read one profile record of the document.
fn parse_profile_at(doc: &Vec<char>, pos: usize) -> (r: Option<(Profile, usize)>)
    requires
        pos <= doc@.len(),
    ensures
        (match r {
            Some(vp) => pos < vp.1 <= doc@.len() && parse_profile(doc@.skip(pos as int)) == Some(
                (vp.0@, doc@.skip(vp.1 as int)),
            ),
            None => parse_profile(doc@.skip(pos as int)) is None,
        }),
{
    let name = match parse_str_at(doc, pos) {
        None => {
            return None;
        },
        Some(v) => v,
    };
    let user = match parse_str_at(doc, name.1) {
        None => {
            return None;
        },
        Some(v) => v,
    };
    let email = match parse_str_at(doc, user.1) {
        None => {
            return None;
        },
        Some(v) => v,
    };
    let signing = match parse_bool_at(doc, email.1) {
        None => {
            return None;
        },
        Some(v) => v,
    };
    let key = match parse_opt_at(doc, signing.1) {
        None => {
            return None;
        },
        Some(v) => v,
    };
    let ssh_key = match parse_opt_at(doc, key.1) {
        None => {
            return None;
        },
        Some(v) => v,
    };
    let ghost key_v = key.0.deep_view();
    let ghost ssh_v = ssh_key.0.deep_view();
    let key_field: Option<String> = match key.0 {
        None => None,
        Some(v) => Some(string_from_chars(&v)),
    };
    let ssh_field: Option<String> = match ssh_key.0 {
        None => None,
        Some(v) => Some(string_from_chars(&v)),
    };
    proof {
        assert(key_field.deep_view() == key_v);
        assert(ssh_field.deep_view() == ssh_v);
    }
    let p = Profile {
        name: string_from_chars(&name.0),
        user: string_from_chars(&user.0),
        email: string_from_chars(&email.0),
        signing: signing.0,
        key: key_field,
        ssh_key: ssh_field,
    };
    proof {
        assert(p@ == ProfileView {
            name: name.0@,
            user: user.0@,
            email: email.0@,
            signing: signing.0,
            key: key_v,
            ssh_key: ssh_v,
        });
        assert(parse_profile(doc@.skip(pos as int)) == Some((p@, doc@.skip(ssh_key.1 as int))));
    }
    Some((p, ssh_key.1))
}

} // verus!
