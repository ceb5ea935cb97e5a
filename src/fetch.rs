use vstd::prelude::*;
use vstd::string::StringExecFns;

verus! {

/// Default base URL that the four archives are fetched from.
pub const MNIST_DATA_URL: &'static str = "https://raw.githubusercontent.com/fgnt/mnist/master";

/// Number of archives that make up the dataset.
pub const ARCHIVE_COUNT: usize = 4;

/// File name of archive `i`: training images, training labels, test images,
/// test labels, in that order.
pub open spec fn archive_name(i: int) -> Seq<char> {
    if i == 0 {
        "train-images-idx3-ubyte.gz"@
    } else if i == 1 {
        "train-labels-idx1-ubyte.gz"@
    } else if i == 2 {
        "t10k-images-idx3-ubyte.gz"@
    } else {
        "t10k-labels-idx1-ubyte.gz"@
    }
}

/// File name of archive `i` of the dataset.
pub fn archive_file(i: usize) -> (r: &'static str)
    requires
        i < ARCHIVE_COUNT,
    ensures
        r@ == archive_name(i as int),
{
    if i == 0 {
        "train-images-idx3-ubyte.gz"
    } else if i == 1 {
        "train-labels-idx1-ubyte.gz"
    } else if i == 2 {
        "t10k-images-idx3-ubyte.gz"
    } else {
        "t10k-labels-idx1-ubyte.gz"
    }
}

/// Joins a base (a URL or a directory) and a file name with a slash.
pub fn join(base: &str, name: &str) -> (r: String)
    ensures
        r@ == base@ + seq!['/'] + name@,
{
    proof {
        reveal_strlit("/");
    }
    let mut r = String::from_str(base);
    r.append("/");
    r.append(name);
    r
}

/// Indices, in increasing order, of the archives that are not present yet.
pub open spec fn plan_of(present: Seq<bool>) -> Seq<usize>
    decreases present.len(),
{
    if present.len() == 0 {
        seq![]
    } else {
        let rest = plan_of(present.drop_last());
        if present.last() {
            rest
        } else {
            rest.push((present.len() - 1) as usize)
        }
    }
}

/// Which archives must be downloaded, given for each archive whether a file
/// of its name already exists: exactly the absent ones, in order. Presence
/// alone counts; a file that exists is never fetched again.
pub fn download_plan(present: &[bool]) -> (r: Vec<usize>)
    ensures
        r@ == plan_of(present@),
{
    let mut plan: Vec<usize> = Vec::new();
    let mut i: usize = 0;
    while i < present.len()
        invariant
            i <= present@.len(),
            plan@ == plan_of(present@.subrange(0, i as int)),
        decreases present@.len() - i,
    {
        assert(present@.subrange(0, i as int) =~= present@.subrange(0, i + 1).drop_last());
        if !present[i] {
            plan.push(i);
        }
        i = i + 1;
    }
    assert(present@.subrange(0, present@.len() as int) =~= present@);
    plan
}

/// Checks the status of a download's response: only 200 is success.
pub fn check_status(status: u16) -> (r: Result<(), crate::LoadError>)
    ensures
        r is Ok <==> status == 200,
        r is Err ==> r->Err_0 == crate::LoadError::HttpStatus(status),
{
    if status == 200 {
        Ok(())
    } else {
        Err(crate::LoadError::HttpStatus(status))
    }
}

/// Presence of each archive after the archives of `plan` were downloaded.
pub open spec fn after_fetch(present: Seq<bool>, plan: Seq<usize>) -> Seq<bool> {
    Seq::new(present.len(), |i: int| present[i] || plan.contains(i as usize))
}

proof fn lemma_plan_has_absent(present: Seq<bool>)
    ensures
        forall|i: int| 0 <= i < present.len() && !present[i] ==> plan_of(present).contains(
            i as usize,
        ),
        forall|k: int| 0 <= k < plan_of(present).len() ==> plan_of(present)[k] < present.len(),
    decreases present.len(),
{
    if present.len() > 0 {
        let init = present.drop_last();
        lemma_plan_has_absent(init);
        let rest = plan_of(init);
        assert forall|i: int| 0 <= i < present.len() && !present[i] implies plan_of(
            present,
        ).contains(i as usize) by {
            if i < present.len() - 1 {
                assert(init[i] == present[i]);
                let k = choose|k: int| 0 <= k < rest.len() && rest[k] == i as usize;
                if !present.last() {
                    assert(plan_of(present)[k] == i as usize);
                }
            } else {
                assert(plan_of(present).last() == i as usize);
            }
        }
    }
}

proof fn lemma_plan_empty(present: Seq<bool>)
    requires
        forall|i: int| 0 <= i < present.len() ==> present[i],
    ensures
        plan_of(present) == Seq::<usize>::empty(),
    decreases present.len(),
{
    if present.len() > 0 {
        lemma_plan_empty(present.drop_last());
    }
}

/// Once the planned downloads are done every archive is present, so a second
/// fetch into the same directory plans no download at all.
pub proof fn lemma_fetch_idempotent(present: Seq<bool>)
    ensures
        forall|i: int|
            0 <= i < present.len() ==> #[trigger] after_fetch(present, plan_of(present))[i],
        plan_of(after_fetch(present, plan_of(present))) == Seq::<usize>::empty(),
{
    lemma_plan_has_absent(present);
    lemma_plan_empty(after_fetch(present, plan_of(present)));
}

} // verus!
