use crate::error::ParseError;
use vstd::prelude::*;
use vstd::string::*;

verus! {

/// A `key=value` token of the command line, split at its first `=`.
#[derive(Debug, Clone, PartialEq, Eq)]
pub struct KvPair {
    pub k: String,
    pub v: String,
}

/// `i` is the position of the first `=` in `s`.
pub open spec fn is_split_point(s: Seq<char>, i: int) -> bool {
    &&& 0 <= i < s.len()
    &&& s[i] == '='
    &&& forall|j: int| 0 <= j < i ==> s[j] != '='
}

impl KvPair {
    /// This pair is `s` cut at its first `=`: the key is all that stands
    /// before it, the value all that stands after it.
    pub open spec fn splits(&self, s: Seq<char>) -> bool {
        &&& is_split_point(s, self.k@.len() as int)
        &&& self.k@ == s.subrange(0, self.k@.len() as int)
        &&& self.v@ == s.subrange(self.k@.len() as int + 1, s.len() as int)
    }

    /// Splits a token at its first `=`. Further `=` signs stay in the value.
    /// A token without any `=` is turned down, and the error carries it.
    pub fn from_str(s: &str) -> (r: Result<KvPair, ParseError>)
        ensures
            s@.contains('=') ==> r is Ok && r->Ok_0.splits(s@),
            !s@.contains('=') ==> r is Err && r->Err_0 is MalformedPair
                && r->Err_0->token@ == s@,
    {
        let n = s.unicode_len();
        let mut i: usize = 0;
        while i < n
            invariant
                n == s@.len(),
                i <= n,
                forall|j: int| 0 <= j < i ==> s@[j] != '=',
            decreases n - i,
        {
            if s.get_char(i) == '=' {
                let k = s.substring_char(0, i).to_owned();
                let v = s.substring_char(i + 1, n).to_owned();
                return Ok(KvPair { k, v });
            }
            i += 1;
        }
        Err(ParseError::MalformedPair { token: s.to_owned() })
    }
}

/// Reads one body token of the command line.
pub fn parse_kv_pair(s: &str) -> (r: Result<KvPair, ParseError>)
    ensures
        s@.contains('=') ==> r is Ok && r->Ok_0.splits(s@),
        !s@.contains('=') ==> r is Err && r->Err_0 is MalformedPair && r->Err_0->token@ == s@,
{
    KvPair::from_str(s)
}

/// A token has at most one split: two pairs that both split `s` agree in key
/// and value.
pub proof fn lemma_split_is_unique(s: Seq<char>, a: KvPair, b: KvPair)
    requires
        a.splits(s),
        b.splits(s),
    ensures
        a.k@ == b.k@,
        a.v@ == b.v@,
{
    let i = a.k@.len() as int;
    let j = b.k@.len() as int;
    if i < j {
        assert(s[i] != '=');
    }
    if j < i {
        assert(s[j] != '=');
    }
}

/// A pair that splits `s` gives `s` back when key, `=` and value are joined,
/// and its key holds no `=`.
pub proof fn lemma_split_rejoins(s: Seq<char>, p: KvPair)
    requires
        p.splits(s),
    ensures
        p.k@ + seq!['='] + p.v@ == s,
        !p.k@.contains('='),
{
    assert(p.k@ + seq!['='] + p.v@ =~= s);
}

} // verus!
