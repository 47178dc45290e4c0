use vstd::prelude::*;

use crate::error::MediaError;
use crate::text::{chars_of, parse_unsigned, unsigned_value};

verus! {

/// The longest request text, in characters, that is always read.
pub const MAX_QUERY_LEN: usize = 0x1000_0000;

/// The key and value pairs, percent-decoded and in order, of the query string `q`.
pub uninterp spec fn form_pairs(q: Seq<char>) -> Seq<(Seq<char>, Seq<char>)>;

/// The text of each key and value.
pub open spec fn pair_views(pairs: Seq<(String, String)>) -> Seq<(Seq<char>, Seq<char>)> {
    pairs.map_values(|p: (String, String)| (p.0@, p.1@))
}

/// Relies on `url::Url::parse` of a base address followed by `?` and `q`, and on
/// `Url::query_pairs`, which splits its query at `&` and `=` and percent-decodes each part.
/// With that fixed base address, parsing fails only on addresses over 4 GB.
#[verifier::external_body]
fn query_pairs(q: &str) -> (r: Result<Vec<(String, String)>, url::ParseError>)
    ensures
        q@.len() <= MAX_QUERY_LEN ==> r is Ok,
        r is Ok ==> pair_views(r->Ok_0@) == form_pairs(q@),
{
    let url = url::Url::parse(&format!("https://www.rust-lang.org?{}", q))?;
    Ok(url.query_pairs().map(|(k, v)| (k.to_string(), v.to_string())).collect())
}

/// The value of the last pair of `pairs` whose key is `key`.
pub open spec fn lookup(pairs: Seq<(Seq<char>, Seq<char>)>, key: Seq<char>) -> Option<Seq<char>>
    decreases pairs.len(),
{
    if pairs.len() == 0 {
        None
    } else if pairs.last().0 == key {
        Some(pairs.last().1)
    } else {
        lookup(pairs.drop_last(), key)
    }
}

/// The fields of a request, in the order in which they were written.
pub struct RequestParams {
    pub pairs: Vec<(String, String)>,
}

impl View for RequestParams {
    type V = Seq<(Seq<char>, Seq<char>)>;

    open spec fn view(&self) -> Seq<(Seq<char>, Seq<char>)> {
        pair_views(self.pairs@)
    }
}

fn same_chars(a: &Vec<char>, b: &Vec<char>) -> (r: bool)
    ensures
        r == (a@ == b@),
{
    if a.len() != b.len() {
        return false;
    }
    let mut i: usize = 0;
    while i < a.len()
        invariant
            a.len() == b.len(),
            i <= a.len(),
            forall|j: int| 0 <= j < i ==> a@[j] == b@[j],
        decreases a.len() - i,
    {
        if a[i] != b[i] {
            return false;
        }
        i = i + 1;
    }
    assert(a@ =~= b@);
    true
}

impl RequestParams {
    /// Reads the request text `q`, shaped as `key=value&key2=value2`.
    pub fn parse(q: &str) -> (r: Result<RequestParams, MediaError>)
        ensures
            q@.len() <= MAX_QUERY_LEN ==> r is Ok,
            r is Ok ==> r->Ok_0@ == form_pairs(q@),
            r is Err ==> r->Err_0 is ParseError,
    {
        match query_pairs(q) {
            Ok(pairs) => Ok(RequestParams { pairs }),
            Err(e) => Err(MediaError::ParseError(e)),
        }
    }

    /// The value of field `key`; where the key occurs more than once, the last one wins.
    pub fn get(&self, key: &str) -> (r: Option<String>)
        ensures
            r is Some <==> lookup(self@, key@) is Some,
            r is Some ==> lookup(self@, key@) == Some(r->0@),
    {
        let k = chars_of(key);
        let mut i: usize = self.pairs.len();
        assert(self@.take(i as int) =~= self@);
        while i > 0
            invariant
                i <= self.pairs.len(),
                k@ == key@,
                lookup(self@, key@) == lookup(self@.take(i as int), key@),
            decreases i,
        {
            assert(self@.take(i as int).drop_last() =~= self@.take(i - 1));
            let candidate = chars_of(self.pairs[i - 1].0.as_str());
            if same_chars(&candidate, &k) {
                return Some(self.pairs[i - 1].1.clone());
            }
            i = i - 1;
        }
        None
    }

    /// Whether field `key` is present.
    pub fn has(&self, key: &str) -> (r: bool)
        ensures
            r == lookup(self@, key@) is Some,
    {
        self.get(key).is_some()
    }

    /// The number in field `key`, no greater than `max`: `None` where the field is absent,
    /// an error where it holds anything but such a number.
    pub fn get_number(&self, key: &str, max: u32) -> (r: Result<Option<u32>, MediaError>)
        ensures
            lookup(self@, key@) is None ==> r == Ok::<Option<u32>, MediaError>(None),
            lookup(self@, key@) is Some ==> {
                let v = unsigned_value(lookup(self@, key@)->0, max as nat);
                &&& r is Ok <==> v is Some
                &&& r is Ok ==> r->Ok_0 is Some && v == Some(r->Ok_0->0 as nat)
                &&& r is Err ==> r->Err_0 is ParseIntError
            },
    {
        match self.get(key) {
            None => Ok(None),
            Some(text) => {
                let chars = chars_of(text.as_str());
                match parse_unsigned(&chars, max) {
                    Some(v) => Ok(Some(v)),
                    None => Err(MediaError::ParseIntError(key.to_owned())),
                }
            },
        }
    }
}

} // verus!
