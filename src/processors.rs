use vstd::prelude::*;
use vstd::laws_cmp::obeys_partial_cmp_spec_properties;
use vstd::std_specs::cmp::{PartialOrdIs, PartialOrdSpec};
use crate::text::{lower_of, to_lower, to_upper, upper_of};

verus! {

/// The larger of two values; `b` when neither is greater.
pub fn get_biggest<T: PartialOrd + Copy>(a: T, b: T) -> (r: T)
    ensures
        T::obeys_partial_cmp_spec() ==> r == (if a.is_gt(&b) {
            a
        } else {
            b
        }),
{
    if a > b {
        a
    } else {
        b
    }
}

/// Under a lawful order nothing is greater than itself.
proof fn lemma_not_gt_self<T: PartialOrd>(x: T)
    requires
        obeys_partial_cmp_spec_properties::<T>(),
    ensures
        !x.is_gt(&x),
{
    reveal(obeys_partial_cmp_spec_properties);
    assert(x.partial_cmp_spec(&x) == Some(core::cmp::Ordering::Less) <==> x.partial_cmp_spec(&x)
        == Some(core::cmp::Ordering::Greater));
}

/// The first element of `list` that no element is greater than.
pub fn largest<T: PartialOrd + Copy>(list: &[T]) -> (r: T)
    requires
        list@.len() > 0,
    ensures
        exists|i: int| 0 <= i < list@.len() && list@[i] == r,
        T::obeys_partial_cmp_spec() && obeys_partial_cmp_spec_properties::<T>() ==> forall|i: int|
            0 <= i < list@.len() ==> !(#[trigger] list@[i]).is_gt(&r),
{
    let mut best = list[0];
    let mut i: usize = 1;
    let ghost mut at: int = 0;
    proof {
        if obeys_partial_cmp_spec_properties::<T>() {
            lemma_not_gt_self(best);
        }
    }
    while i < list.len()
        invariant
            1 <= i <= list@.len(),
            0 <= at < list@.len(),
            list@[at] == best,
            T::obeys_partial_cmp_spec() && obeys_partial_cmp_spec_properties::<T>() ==> forall|
                j: int,
            |
                0 <= j < i ==> !(#[trigger] list@[j]).is_gt(&best),
        decreases list@.len() - i,
    {
        let item = list[i];
        if item > best {
            proof {
                if T::obeys_partial_cmp_spec() && obeys_partial_cmp_spec_properties::<T>() {
                    reveal(obeys_partial_cmp_spec_properties);
                    assert forall|j: int| 0 <= j < i + 1 implies !(#[trigger] list@[j]).is_gt(
                        &item,
                    ) by {
                        if j < i && list@[j].is_gt(&item) {
                            assert(list@[j].partial_cmp_spec(&best) == Some(
                                core::cmp::Ordering::Greater,
                            ));
                        }
                        if j == i {
                            lemma_not_gt_self(item);
                        }
                    }
                }
            }
            best = item;
            proof {
                at = i as int;
            }
        }
        i = i + 1;
    }
    best
}

/// Turns one text into another.
pub trait Processor {
    /// What `process` makes of `input`.
    spec fn processed(&self, input: Seq<char>) -> Seq<char>;

    fn process(&self, input: &str) -> (r: String)
        ensures
            r@ == self.processed(input@),
    ;
}

/// Maps a text to upper case.
pub struct UppercaseProcessor;

/// Maps a text to lower case.
pub struct LowercaseProcessor;

impl Processor for UppercaseProcessor {
    open spec fn processed(&self, input: Seq<char>) -> Seq<char> {
        upper_of(input)
    }

    fn process(&self, input: &str) -> (r: String) {
        to_upper(input)
    }
}

impl Processor for LowercaseProcessor {
    open spec fn processed(&self, input: Seq<char>) -> Seq<char> {
        lower_of(input)
    }

    fn process(&self, input: &str) -> (r: String) {
        to_lower(input)
    }
}

/// The view of a result whose both sides are texts.
pub open spec fn text_result(r: Result<String, String>) -> Result<Seq<char>, Seq<char>> {
    match r {
        Ok(s) => Ok(s@),
        Err(e) => Err(e@),
    }
}

/// Handles a module, named by its path, or refuses it with a reason.
pub trait AstProcessor {
    /// What `process` gives for `module`.
    spec fn outcome(&self, module: Seq<char>) -> Result<Seq<char>, Seq<char>>;

    fn process(&self, module: &str) -> (r: Result<String, String>)
        ensures
            text_result(r) == self.outcome(module@),
    ;
}

/// Tags every module with a prefix: `<prefix>: <module>`.
pub struct TranslationProcessor {
    pub prefix: String,
}

/// Accepts the modules whose path ends in `.ts`.
pub struct ValidationProcessor;

impl AstProcessor for TranslationProcessor {
    open spec fn outcome(&self, module: Seq<char>) -> Result<Seq<char>, Seq<char>> {
        Ok(self.prefix@ + ": "@ + module)
    }

    fn process(&self, module: &str) -> (r: Result<String, String>) {
        let mut s = self.prefix.clone();
        s.append(": ");
        s.append(module);
        Ok(s)
    }
}

/// Whether `s` ends with `suffix`.
pub open spec fn ends_with(s: Seq<char>, suffix: Seq<char>) -> bool {
    suffix.len() <= s.len() && s.subrange(s.len() - suffix.len(), s.len() as int) == suffix
}

/// Whether `s` ends with `suffix`, compared character by character.
pub fn has_suffix(s: &str, suffix: &str) -> (r: bool)
    ensures
        r == ends_with(s@, suffix@),
{
    let n = s.unicode_len();
    let m = suffix.unicode_len();
    if m > n {
        return false;
    }
    let mut k: usize = 0;
    while k < m
        invariant
            n == s@.len(),
            m == suffix@.len(),
            m <= n,
            k <= m,
            forall|j: int| 0 <= j < k ==> s@[n - m + j] == #[trigger] suffix@[j],
        decreases m - k,
    {
        if s.get_char(n - m + k) != suffix.get_char(k) {
            assert(s@.subrange(n - m, n as int)[k as int] != suffix@[k as int]);
            return false;
        }
        k = k + 1;
    }
    assert(s@.subrange(n - m, n as int) =~= suffix@);
    true
}

impl AstProcessor for ValidationProcessor {
    open spec fn outcome(&self, module: Seq<char>) -> Result<Seq<char>, Seq<char>> {
        if ends_with(module, ".ts"@) {
            Ok("유효한 모듈: "@ + module)
        } else {
            Err("유효하지 않은 파일 확장자"@)
        }
    }

    fn process(&self, module: &str) -> (r: Result<String, String>) {
        if has_suffix(module, ".ts") {
            let mut s = String::from_str("유효한 모듈: ");
            s.append(module);
            Ok(s)
        } else {
            Err(String::from_str("유효하지 않은 파일 확장자"))
        }
    }
}

/// Hands `module` to `processor`.
pub fn process_ast<P: AstProcessor>(processor: &P, module: &str) -> (r: Result<String, String>)
    ensures
        text_result(r) == processor.outcome(module@),
{
    processor.process(module)
}

/// A growable, indexable collection of items.
pub trait Container<T> {
    /// The items, in the order they were added.
    spec fn items(&self) -> Seq<T>;

    fn add(&mut self, item: T)
        ensures
            final(self).items() == old(self).items().push(item),
    ;

    fn get(&self, index: usize) -> (r: Option<&T>)
        ensures
            match r {
                Some(x) => index < self.items().len() && *x == self.items()[index as int],
                None => index >= self.items().len(),
            },
    ;

    fn len(&self) -> (r: usize)
        ensures
            r == self.items().len(),
    ;
}

impl<T> Container<T> for Vec<T> {
    open spec fn items(&self) -> Seq<T> {
        self@
    }

    fn add(&mut self, item: T) {
        self.push(item);
    }

    fn get(&self, index: usize) -> (r: Option<&T>) {
        if index < self.len() {
            Some(&self[index])
        } else {
            None
        }
    }

    fn len(&self) -> (r: usize) {
        self.len()
    }
}

} // verus!
