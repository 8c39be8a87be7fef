//! Parsing one line of the passwd database into plain fields.
//!
//! A line holds colon-separated fields: name, password marker, uid, gid,
//! gecos, home directory and shell. The parser is total: a line with fewer
//! than seven fields, or whose uid or gid is not a decimal number that fits,
//! parses to nothing instead of failing.

use vstd::prelude::*;
use vstd::string::StrSliceExecFns;

verus! {

/// A parsed line of the passwd database, fielded as plain values. Fields
/// past the seventh are ignored.
#[derive(Debug)]
pub struct PasswdRecord {
    pub username: String,
    pub password_in_shadow: bool,
    pub uid: u32,
    pub gid: u32,
    pub gecos: String,
    pub home_dir: String,
    pub shell: String,
}

/// True when `c` is a decimal digit.
pub open spec fn is_digit(c: char) -> bool {
    48 <= c as int <= 57
}

/// The value of the digit `c`.
pub open spec fn digit_val(c: char) -> int {
    c as int - 48
}

/// True when `s` is one or more decimal digits.
pub open spec fn is_dec_digits(s: Seq<char>) -> bool {
    s.len() >= 1 && forall|i: int| 0 <= i < s.len() ==> is_digit(s[i])
}

/// The number the digit string `s` denotes.
pub open spec fn dec_value(s: Seq<char>) -> int
    decreases s.len(),
{
    if s.len() == 0 {
        0
    } else {
        dec_value(s.drop_last()) * 10 + digit_val(s.last())
    }
}

/// What parsing `s` as a `u32` returns: the denoted number when `s` is all
/// digits and the number fits, nothing otherwise.
pub open spec fn parse_u32_model(s: Seq<char>) -> Option<u32> {
    if is_dec_digits(s) && dec_value(s) <= u32::MAX {
        Some(dec_value(s) as u32)
    } else {
        None
    }
}

/// The fields of `s` split on ':': one more field than separators, in
/// order, the separators themselves dropped.
pub open spec fn split_on_colon(s: Seq<char>) -> Seq<Seq<char>>
    decreases s.len(),
{
    if s.len() == 0 {
        seq![Seq::<char>::empty()]
    } else if s[0] == ':' {
        seq![Seq::<char>::empty()] + split_on_colon(s.drop_first())
    } else {
        let rest = split_on_colon(s.drop_first());
        seq![seq![s[0]] + rest[0]] + rest.drop_first()
    }
}

/// A digit string denotes a number that is not negative.
proof fn lemma_dec_nonneg(s: Seq<char>)
    requires
        forall|i: int| 0 <= i < s.len() ==> is_digit(s[i]),
    ensures
        dec_value(s) >= 0,
    decreases s.len(),
{
    if s.len() > 0 {
        lemma_dec_nonneg(s.drop_last());
    }
}

/// A digit string denotes at least what any of its prefixes denotes.
proof fn lemma_dec_prefix_le(s: Seq<char>, k: int)
    requires
        0 <= k <= s.len(),
        forall|i: int| 0 <= i < s.len() ==> is_digit(s[i]),
    ensures
        dec_value(s.take(k)) <= dec_value(s),
    decreases s.len() - k,
{
    if k == s.len() {
        assert(s.take(k) =~= s);
    } else {
        lemma_dec_prefix_le(s, k + 1);
        lemma_dec_nonneg(s.take(k));
        assert(s.take(k + 1).drop_last() =~= s.take(k));
        assert(s.take(k + 1).last() == s[k]);
    }
}

/// With the first separator of the tail at `i`, the tail's fields are the
/// piece before `i` and then the fields after `i`.
proof fn lemma_split_at_sep(s: Seq<char>, start: int, i: int)
    requires
        0 <= start <= i < s.len(),
        s[i] == ':',
        forall|j: int| start <= j < i ==> s[j] != ':',
    ensures
        split_on_colon(s.skip(start)) == seq![s.subrange(start, i)] + split_on_colon(
            s.skip(i + 1),
        ),
    decreases i - start,
{
    let t = s.skip(start);
    assert(t[0] == s[start]);
    assert(t.drop_first() =~= s.skip(start + 1));
    if start == i {
        assert(s.subrange(start, i) =~= Seq::<char>::empty());
    } else {
        lemma_split_at_sep(s, start + 1, i);
        assert(seq![s[start]] + s.subrange(start + 1, i) =~= s.subrange(start, i));
        assert((seq![s.subrange(start + 1, i)] + split_on_colon(s.skip(i + 1))).drop_first()
            =~= split_on_colon(s.skip(i + 1)));
        assert(split_on_colon(s.skip(start)) =~= seq![s.subrange(start, i)] + split_on_colon(
            s.skip(i + 1),
        ));
    }
}

/// A tail without separators is one field: the tail itself.
proof fn lemma_split_no_sep(s: Seq<char>, start: int)
    requires
        0 <= start <= s.len(),
        forall|j: int| start <= j < s.len() ==> s[j] != ':',
    ensures
        split_on_colon(s.skip(start)) == seq![s.subrange(start, s.len() as int)],
    decreases s.len() - start,
{
    let t = s.skip(start);
    if start == s.len() {
        assert(t =~= Seq::<char>::empty());
        assert(s.subrange(start, s.len() as int) =~= Seq::<char>::empty());
    } else {
        lemma_split_no_sep(s, start + 1);
        assert(t[0] == s[start]);
        assert(t.drop_first() =~= s.skip(start + 1));
        assert(seq![s[start]] + s.subrange(start + 1, s.len() as int) =~= s.subrange(
            start,
            s.len() as int,
        ));
        assert((seq![s.subrange(start + 1, s.len() as int)]).drop_first() =~= Seq::<
            Seq<char>,
        >::empty());
        assert(split_on_colon(s.skip(start)) =~= seq![s.subrange(start, s.len() as int)]);
    }
}

/// The views of a vector of strings, in order.
pub open spec fn views_of(v: Seq<String>) -> Seq<Seq<char>> {
    Seq::new(v.len(), |i: int| v[i]@)
}

/// Split `line` on ':' into its fields.
fn split_colon_fields(line: &str) -> (fields: Vec<String>)
    ensures
        views_of(fields@) == split_on_colon(line@),
{
    let n = line.unicode_len();
    let mut fields: Vec<String> = Vec::new();
    let mut start: usize = 0;
    let mut i: usize = 0;
    proof {
        assert(line@.skip(0) =~= line@);
        assert(views_of(fields@) + split_on_colon(line@) =~= split_on_colon(line@));
    }
    while i < n
        invariant
            n == line@.len(),
            start <= i <= n,
            forall|j: int| start <= j < i ==> line@[j] != ':',
            views_of(fields@) + split_on_colon(line@.skip(start as int)) == split_on_colon(
                line@,
            ),
        decreases n - i,
    {
        let c = line.get_char(i);
        if c == ':' {
            let ghost fields_before = fields@;
            let piece = line.substring_char(start, i).to_owned();
            fields.push(piece);
            proof {
                lemma_split_at_sep(line@, start as int, i as int);
                assert(views_of(fields@) =~= views_of(fields_before).push(
                    line@.subrange(start as int, i as int),
                ));
                assert(views_of(fields@) + split_on_colon(line@.skip(i + 1)) =~= views_of(
                    fields_before,
                ) + split_on_colon(line@.skip(start as int)));
            }
            start = i + 1;
        }
        i += 1;
    }
    let ghost fields_before = fields@;
    let piece = line.substring_char(start, n).to_owned();
    fields.push(piece);
    proof {
        lemma_split_no_sep(line@, start as int);
        assert(views_of(fields@) =~= views_of(fields_before).push(
            line@.subrange(start as int, n as int),
        ));
        assert(views_of(fields@) =~= split_on_colon(line@));
    }
    fields
}

/// Parse `field` as a decimal `u32`: digits only, rejecting the empty
/// field, any other character, and a value that does not fit.
fn parse_u32_field(field: &String) -> (r: Option<u32>)
    ensures
        r == parse_u32_model(field@),
{
    let s = field.as_str();
    let n = s.unicode_len();
    if n == 0 {
        return None;
    }
    let mut acc: u64 = 0;
    let mut i: usize = 0;
    while i < n
        invariant
            s@ == field@,
            n == field@.len(),
            i <= n,
            forall|j: int| 0 <= j < i ==> is_digit(field@[j]),
            acc == dec_value(field@.take(i as int)),
            acc <= u32::MAX,
        decreases n - i,
    {
        let c = s.get_char(i);
        let cv = c as u32;
        if cv < 48 || cv > 57 {
            proof {
                assert(!is_digit(field@[i as int]));
            }
            return None;
        }
        proof {
            assert(field@.take(i + 1).drop_last() =~= field@.take(i as int));
            assert(field@.take(i + 1).last() == field@[i as int]);
        }
        acc = acc * 10 + (cv - 48) as u64;
        if acc > 0xffff_ffff {
            proof {
                if is_dec_digits(field@) {
                    lemma_dec_prefix_le(field@, i + 1);
                }
            }
            return None;
        }
        i += 1;
    }
    proof {
        assert(field@.take(n as int) =~= field@);
    }
    Some(acc as u32)
}

/// Parse one line of the passwd database. Returns the record exactly when
/// the line has at least seven colon-separated fields and its third and
/// fourth are decimal numbers that fit a `u32`; the password marker reads as
/// "stored in the shadow file" exactly when the second field is `x`.
pub fn parse_passwd_entry(line: &str) -> (r: Option<PasswdRecord>)
    ensures
        match r {
            Some(rec) => {
                let fs = split_on_colon(line@);
                &&& fs.len() >= 7
                &&& rec.username@ == fs[0]
                &&& rec.password_in_shadow == (fs[1] == seq!['x'])
                &&& parse_u32_model(fs[2]) == Some(rec.uid)
                &&& parse_u32_model(fs[3]) == Some(rec.gid)
                &&& rec.gecos@ == fs[4]
                &&& rec.home_dir@ == fs[5]
                &&& rec.shell@ == fs[6]
            },
            None => {
                let fs = split_on_colon(line@);
                ||| fs.len() < 7
                ||| parse_u32_model(fs[2]) is None
                ||| parse_u32_model(fs[3]) is None
            },
        },
{
    let fields = split_colon_fields(line);
    if fields.len() < 7 {
        return None;
    }
    let uid = match parse_u32_field(&fields[2]) {
        Some(u) => u,
        None => {
            return None;
        },
    };
    let gid = match parse_u32_field(&fields[3]) {
        Some(g) => g,
        None => {
            return None;
        },
    };
    let marker = "x".to_owned();
    let password_in_shadow = fields[1].eq(&marker);
    proof {
        reveal_strlit("x");
        assert("x"@ =~= seq!['x']);
    }
    Some(
        PasswdRecord {
            username: fields[0].clone(),
            password_in_shadow,
            uid,
            gid,
            gecos: fields[4].clone(),
            home_dir: fields[5].clone(),
            shell: fields[6].clone(),
        },
    )
}

} // verus!
