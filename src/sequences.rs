use vstd::prelude::*;

verus! {

broadcast use vstd::seq_lib::to_multiset_insert;

/// The sum of the elements.
pub open spec fn seq_sum(s: Seq<i32>) -> int
    decreases s.len(),
{
    if s.len() == 0 {
        0
    } else {
        seq_sum(s.drop_last()) + s.last()
    }
}

/// The product of the elements (1 for none).
pub open spec fn seq_product(s: Seq<i32>) -> int
    decreases s.len(),
{
    if s.len() == 0 {
        1
    } else {
        seq_product(s.drop_last()) * s.last()
    }
}

/// The even elements, in their order.
pub open spec fn evens_of(s: Seq<i32>) -> Seq<i32>
    decreases s.len(),
{
    if s.len() == 0 {
        Seq::empty()
    } else if s.last() % 2 == 0 {
        evens_of(s.drop_last()).push(s.last())
    } else {
        evens_of(s.drop_last())
    }
}

/// Whether every running total of a left-to-right sum stays within `i32`.
pub open spec fn sums_fit(s: Seq<i32>) -> bool {
    forall|k: int| 0 <= k <= s.len() ==> i32::MIN <= #[trigger] seq_sum(s.subrange(0, k)) <= i32::MAX
}

/// Whether every running product of a left-to-right product stays within `i32`.
pub open spec fn products_fit(s: Seq<i32>) -> bool {
    forall|k: int|
        0 <= k <= s.len() ==> i32::MIN <= #[trigger] seq_product(s.subrange(0, k)) <= i32::MAX
}

/// The sum of the elements, added from the left; no running total may
/// leave `i32`.
pub fn sum_all(v: &Vec<i32>) -> (r: i32)
    requires
        sums_fit(v@),
    ensures
        r == seq_sum(v@),
{
    let mut total: i32 = 0;
    let mut i: usize = 0;
    while i < v.len()
        invariant
            i <= v@.len(),
            sums_fit(v@),
            total == seq_sum(v@.subrange(0, i as int)),
        decreases v@.len() - i,
    {
        assert(v@.subrange(0, i + 1).drop_last() =~= v@.subrange(0, i as int));
        assert(i32::MIN <= seq_sum(v@.subrange(0, i + 1)) <= i32::MAX);
        total = total + v[i];
        i = i + 1;
    }
    assert(v@.subrange(0, i as int) =~= v@);
    total
}

/// The product of the elements, multiplied from the left; no running
/// product may leave `i32`.
pub fn product_all(v: &Vec<i32>) -> (r: i32)
    requires
        products_fit(v@),
    ensures
        r == seq_product(v@),
{
    let mut total: i32 = 1;
    let mut i: usize = 0;
    assert(v@.subrange(0, 0) =~= Seq::<i32>::empty());
    while i < v.len()
        invariant
            i <= v@.len(),
            products_fit(v@),
            total == seq_product(v@.subrange(0, i as int)),
        decreases v@.len() - i,
    {
        assert(v@.subrange(0, i + 1).drop_last() =~= v@.subrange(0, i as int));
        assert(i32::MIN <= seq_product(v@.subrange(0, i + 1)) <= i32::MAX);
        total = total * v[i];
        i = i + 1;
    }
    assert(v@.subrange(0, i as int) =~= v@);
    total
}

/// Each element times two; every double must fit in `i32`.
pub fn doubled(v: &Vec<i32>) -> (r: Vec<i32>)
    requires
        forall|i: int| 0 <= i < v@.len() ==> i32::MIN <= 2 * #[trigger] v@[i] <= i32::MAX,
    ensures
        r@ == v@.map_values(|x: i32| (2 * x) as i32),
{
    let mut r: Vec<i32> = Vec::new();
    let mut i: usize = 0;
    while i < v.len()
        invariant
            i <= v@.len(),
            forall|j: int| 0 <= j < v@.len() ==> i32::MIN <= 2 * #[trigger] v@[j] <= i32::MAX,
            r@ == v@.subrange(0, i as int).map_values(|x: i32| (2 * x) as i32),
        decreases v@.len() - i,
    {
        r.push(2 * v[i]);
        i = i + 1;
        assert(r@ =~= v@.subrange(0, i as int).map_values(|x: i32| (2 * x) as i32));
    }
    assert(v@.subrange(0, i as int) =~= v@);
    r
}

/// Each element squared; every square must fit in `i32`.
pub fn squared(v: &Vec<i32>) -> (r: Vec<i32>)
    requires
        forall|i: int| 0 <= i < v@.len() ==> i32::MIN <= #[trigger] v@[i] * v@[i] <= i32::MAX,
    ensures
        r@ == v@.map_values(|x: i32| (x * x) as i32),
{
    let mut r: Vec<i32> = Vec::new();
    let mut i: usize = 0;
    while i < v.len()
        invariant
            i <= v@.len(),
            forall|j: int| 0 <= j < v@.len() ==> i32::MIN <= #[trigger] v@[j] * v@[j] <= i32::MAX,
            r@ == v@.subrange(0, i as int).map_values(|x: i32| (x * x) as i32),
        decreases v@.len() - i,
    {
        let x = v[i];
        assert(x == v@[i as int]);
        r.push(x * x);
        i = i + 1;
        assert(r@ =~= v@.subrange(0, i as int).map_values(|x: i32| (x * x) as i32));
    }
    assert(v@.subrange(0, i as int) =~= v@);
    r
}

/// The even elements of `v`, in their order.
pub fn evens(v: &Vec<i32>) -> (r: Vec<i32>)
    ensures
        r@ == evens_of(v@),
{
    let mut r: Vec<i32> = Vec::new();
    let mut i: usize = 0;
    while i < v.len()
        invariant
            i <= v@.len(),
            r@ == evens_of(v@.subrange(0, i as int)),
        decreases v@.len() - i,
    {
        assert(v@.subrange(0, i + 1).drop_last() =~= v@.subrange(0, i as int));
        if v[i] % 2 == 0 {
            r.push(v[i]);
        }
        i = i + 1;
    }
    assert(v@.subrange(0, i as int) =~= v@);
    r
}

/// The elements of `a` followed by those of `b`.
pub fn chained(a: &Vec<i32>, b: &Vec<i32>) -> (r: Vec<i32>)
    ensures
        r@ == a@ + b@,
{
    let mut r: Vec<i32> = Vec::new();
    let mut i: usize = 0;
    while i < a.len()
        invariant
            i <= a@.len(),
            r@ == a@.subrange(0, i as int),
        decreases a@.len() - i,
    {
        r.push(a[i]);
        i = i + 1;
        assert(r@ =~= a@.subrange(0, i as int));
    }
    let mut j: usize = 0;
    while j < b.len()
        invariant
            i == a@.len(),
            j <= b@.len(),
            r@ == a@ + b@.subrange(0, j as int),
        decreases b@.len() - j,
    {
        r.push(b[j]);
        j = j + 1;
        assert(r@ =~= a@ + b@.subrange(0, j as int));
    }
    assert(b@.subrange(0, j as int) =~= b@);
    r
}

/// A person with a name and an age.
#[derive(Debug, Clone)]
pub struct Person {
    pub name: String,
    pub age: u32,
}

/// Whether the people stand in order of age, youngest first.
pub open spec fn sorted_by_age(s: Seq<Person>) -> bool {
    forall|i: int, j: int| 0 <= i < j < s.len() ==> s[i].age <= s[j].age
}

/// The same people ordered by age, youngest first.
pub fn sort_by_age(people: Vec<Person>) -> (r: Vec<Person>)
    ensures
        sorted_by_age(r@),
        r@.to_multiset() == people@.to_multiset(),
{
    let mut rest = people;
    let mut r: Vec<Person> = Vec::new();
    proof {
        vstd::seq_lib::to_multiset_len(r@);
        vstd::multiset::lemma_multiset_empty_len(r@.to_multiset());
        assert(rest@.to_multiset().add(r@.to_multiset()) =~= people@.to_multiset());
    }
    while rest.len() > 0
        invariant
            sorted_by_age(r@),
            rest@.to_multiset().add(r@.to_multiset()) == people@.to_multiset(),
        decreases rest@.len(),
    {
        let ghost before = rest@;
        let p = rest.pop().unwrap();
        proof {
            vstd::seq_lib::to_multiset_build(rest@, p);
            assert(before =~= rest@.push(p));
        }
        let mut pos: usize = 0;
        while pos < r.len() && r[pos].age < p.age
            invariant
                pos <= r@.len(),
                forall|j: int| 0 <= j < pos ==> r@[j].age < p.age,
            decreases r@.len() - pos,
        {
            pos = pos + 1;
        }
        let ghost old_r = r@;
        r.insert(pos, p);
        proof {
            assert(r@ == old_r.insert(pos as int, p));
            assert(r@.to_multiset() == old_r.to_multiset().insert(p));
            assert(rest@.to_multiset().add(r@.to_multiset()) =~= before.to_multiset().add(
                old_r.to_multiset(),
            ));
            assert forall|i: int, j: int| 0 <= i < j < r@.len() implies r@[i].age <= r@[j].age by {
                if j < pos {
                } else if j == pos {
                } else if i < pos {
                    assert(old_r[i].age < p.age);
                    assert(p.age <= old_r[pos as int].age);
                } else if i == pos {
                    assert(p.age <= old_r[pos as int].age);
                }
            }
        }
    }
    proof {
        vstd::seq_lib::to_multiset_len(rest@);
        vstd::multiset::lemma_multiset_empty_len(rest@.to_multiset());
        assert(rest@.to_multiset().add(r@.to_multiset()) =~= r@.to_multiset());
    }
    r
}

} // verus!
