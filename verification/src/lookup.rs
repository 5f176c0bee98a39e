use vstd::prelude::*;

use crate::text::contains_substr;
use crate::text::str_contains;

verus! {

/// One HTTP status entry: the numeric code as text, the reason phrase, a
/// description, and the title and URL of the specification that defines it.
#[derive(Debug)]
pub struct StatusCode {
    pub code: String,
    pub phrase: String,
    pub description: String,
    pub spec_title: String,
    pub spec_href: String,
}

impl Clone for StatusCode {
    fn clone(&self) -> (r: Self)
        ensures
            r == *self,
    {
        StatusCode {
            code: self.code.clone(),
            phrase: self.phrase.clone(),
            description: self.description.clone(),
            spec_title: self.spec_title.clone(),
            spec_href: self.spec_href.clone(),
        }
    }
}

/// The record's code field is exactly `code`.
pub open spec fn code_matches(c: StatusCode, code: Seq<char>) -> bool {
    c.code@ == code
}

/// The keyword occurs in the record's code, phrase, or description.
pub open spec fn keyword_matches(c: StatusCode, keyword: Seq<char>) -> bool {
    ||| contains_substr(c.code@, keyword)
    ||| contains_substr(c.phrase@, keyword)
    ||| contains_substr(c.description@, keyword)
}

/// The records of `codes` whose code field is exactly `code`, in dataset order.
pub open spec fn filter_by_code(codes: Seq<StatusCode>, code: Seq<char>) -> Seq<StatusCode> {
    codes.filter(|c: StatusCode| code_matches(c, code))
}

/// The records of `codes` that match `keyword`, in dataset order.
pub open spec fn filter_by_keyword(codes: Seq<StatusCode>, keyword: Seq<char>) -> Seq<StatusCode> {
    codes.filter(|c: StatusCode| keyword_matches(c, keyword))
}

impl StatusCode {
    /// Case-sensitive substring search over the three searched fields.
    pub fn has_keyword(&self, keyword: &str) -> (r: bool)
        ensures
            r == keyword_matches(*self, keyword@),
    {
        str_contains(self.code.as_str(), keyword)
            || str_contains(self.phrase.as_str(), keyword)
            || str_contains(self.description.as_str(), keyword)
    }
}

/// Keyword search is sound and complete: every record it keeps matches the
/// keyword in code, phrase, or description; a record that matches in none of
/// the three is never kept; and every record of the dataset that does match
/// is kept.
pub proof fn lemma_keyword_filter_exact(codes: Seq<StatusCode>, keyword: Seq<char>)
    ensures
        forall|i: int|
            0 <= i < filter_by_keyword(codes, keyword).len() ==> keyword_matches(
                #[trigger] filter_by_keyword(codes, keyword)[i],
                keyword,
            ),
        forall|c: StatusCode|
            !keyword_matches(c, keyword) ==> !filter_by_keyword(codes, keyword).contains(c),
        forall|i: int|
            0 <= i < codes.len() && keyword_matches(#[trigger] codes[i], keyword)
                ==> filter_by_keyword(codes, keyword).contains(codes[i]),
{
    broadcast use vstd::seq_lib::group_filter_ensures;

    let kept = filter_by_keyword(codes, keyword);
    assert forall|c: StatusCode| !keyword_matches(c, keyword) implies !kept.contains(c) by {
        if kept.contains(c) {
            let j = choose|j: int| 0 <= j < kept.len() && kept[j] == c;
            assert(keyword_matches(kept[j], keyword));
        }
    }
}

/// Over an empty dataset neither search selects anything, so by the contracts
/// of `get_codes_by_code` and `get_codes_by_keyword` each returns the
/// not-found error there.
pub proof fn lemma_empty_dataset_not_found(code: Seq<char>, keyword: Seq<char>)
    ensures
        filter_by_code(Seq::<StatusCode>::empty(), code).len() == 0,
        filter_by_keyword(Seq::<StatusCode>::empty(), keyword).len() == 0,
{
    reveal(Seq::filter);
}

/// Exact-code lookup: the `Ok` value is precisely the subsequence of `codes`
/// whose code field equals `code`, in dataset order; the not-found error comes
/// exactly when no record's code field equals `code`.
pub fn get_codes_by_code(codes: &Vec<StatusCode>, code: &str) -> (r: Result<
    Vec<StatusCode>,
    &'static str,
>)
    ensures
        match r {
            Ok(v) => v@ == filter_by_code(codes@, code@) && v@.len() > 0,
            Err(m) => filter_by_code(codes@, code@).len() == 0 && m@ == "Can't find the code"@,
        },
{
    let target: String = code.to_owned();
    let mut ret: Vec<StatusCode> = Vec::new();
    let n: usize = codes.len();
    let mut i: usize = 0;
    while i < n
        invariant
            n == codes@.len(),
            i <= n,
            target@ == code@,
            ret@ == filter_by_code(codes@.take(i as int), code@),
        decreases n - i,
    {
        let c = codes[i].clone();
        proof {
            reveal(Seq::filter);
            assert(codes@.take(i + 1) =~= codes@.take(i as int).push(codes@[i as int]));
            assert(codes@.take(i + 1).drop_last() =~= codes@.take(i as int));
        }
        if c.code == target {
            ret.push(c);
        }
        i = i + 1;
    }
    proof {
        assert(codes@.take(n as int) =~= codes@);
    }
    if ret.len() == 0 {
        Err("Can't find the code")
    } else {
        Ok(ret)
    }
}

/// Keyword lookup: the `Ok` value is precisely the subsequence of `codes`
/// whose code, phrase, or description contains `keyword` as a case-sensitive
/// substring, in dataset order; the not-found error comes exactly when no
/// record matches.
pub fn get_codes_by_keyword(codes: &Vec<StatusCode>, keyword: &str) -> (r: Result<
    Vec<StatusCode>,
    &'static str,
>)
    ensures
        match r {
            Ok(v) => v@ == filter_by_keyword(codes@, keyword@) && v@.len() > 0,
            Err(m) => filter_by_keyword(codes@, keyword@).len() == 0 && m@ == "Can't find the code"@,
        },
{
    let mut ret: Vec<StatusCode> = Vec::new();
    let n: usize = codes.len();
    let mut i: usize = 0;
    while i < n
        invariant
            n == codes@.len(),
            i <= n,
            ret@ == filter_by_keyword(codes@.take(i as int), keyword@),
        decreases n - i,
    {
        let c = codes[i].clone();
        proof {
            reveal(Seq::filter);
            assert(codes@.take(i + 1) =~= codes@.take(i as int).push(codes@[i as int]));
            assert(codes@.take(i + 1).drop_last() =~= codes@.take(i as int));
        }
        if c.has_keyword(keyword) {
            ret.push(c);
        }
        i = i + 1;
    }
    proof {
        assert(codes@.take(n as int) =~= codes@);
    }
    if ret.len() == 0 {
        Err("Can't find the code")
    } else {
        Ok(ret)
    }
}

/// Identity passthrough, used when no filter is supplied: the result is the
/// dataset unchanged, record for record.
pub fn list_all(codes: &Vec<StatusCode>) -> (r: Vec<StatusCode>)
    ensures
        r@ == codes@,
{
    let mut ret: Vec<StatusCode> = Vec::new();
    let n: usize = codes.len();
    let mut i: usize = 0;
    while i < n
        invariant
            n == codes@.len(),
            i <= n,
            ret@ == codes@.take(i as int),
        decreases n - i,
    {
        ret.push(codes[i].clone());
        proof {
            assert(codes@.take(i + 1) =~= codes@.take(i as int).push(codes@[i as int]));
        }
        i = i + 1;
    }
    proof {
        assert(codes@.take(n as int) =~= codes@);
    }
    ret
}

} // verus!
