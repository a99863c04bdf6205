//! The list of commands to pick from, and the pick itself.
use vstd::prelude::*;
use rand::Rng;

verus! {

/// What a list of command names reads as.
pub open spec fn names(v: Seq<String>) -> Seq<Seq<char>> {
    v.map_values(|s: String| s@)
}

/// `acc` followed by each name of `extra` that is not already in the list
/// built so far, in the order of `extra`.
pub open spec fn merged(acc: Seq<Seq<char>>, extra: Seq<Seq<char>>) -> Seq<Seq<char>>
    decreases extra.len(),
{
    if extra.len() == 0 {
        acc
    } else {
        let next = if acc.contains(extra[0]) {
            acc
        } else {
            acc.push(extra[0])
        };
        merged(next, extra.drop_first())
    }
}

/// Relies on `rand::Rng::gen_range` over `0..len` with the thread-local
/// generator: it returns a value of the range, and panics only on an empty
/// range, which `requires` leaves out.
#[verifier::external_body]
fn random_index(len: usize) -> (r: usize)
    requires
        len > 0,
    ensures
        r < len,
{
    rand::thread_rng().gen_range(0..len)
}

fn holds_name(list: &Vec<String>, name: &String) -> (r: bool)
    ensures
        r == names(list@).contains(name@),
{
    let mut j: usize = 0;
    while j < list.len()
        invariant
            j <= list@.len(),
            forall|k: int| 0 <= k < j ==> list@[k]@ != name@,
        decreases list@.len() - j,
    {
        if list[j] == *name {
            assert(names(list@)[j as int] == name@);
            return true;
        }
        j = j + 1;
    }
    proof {
        if names(list@).contains(name@) {
            let k = choose|k: int| 0 <= k < names(list@).len() && names(list@)[k] == name@;
            assert(list@[k]@ == name@);
        }
    }
    false
}

/// The commands of the first directory listing, then those of the second
/// that are not already listed.
pub fn merge_commands(bin: Vec<String>, sbin: Vec<String>) -> (r: Vec<String>)
    ensures
        names(r@) == merged(names(bin@), names(sbin@)),
{
    let mut r = bin;
    let mut i: usize = 0;
    assert(names(sbin@).subrange(0, sbin@.len() as int) =~= names(sbin@));
    while i < sbin.len()
        invariant
            i <= sbin@.len(),
            merged(names(r@), names(sbin@).subrange(i as int, sbin@.len() as int)) == merged(
                names(bin@),
                names(sbin@),
            ),
        decreases sbin@.len() - i,
    {
        let ghost before = names(r@);
        let ghost rest = names(sbin@).subrange(i as int, sbin@.len() as int);
        assert(rest.drop_first() =~= names(sbin@).subrange(i + 1, sbin@.len() as int));
        assert(rest[0] == sbin@[i as int]@);
        let name = sbin[i].clone();
        if !holds_name(&r, &name) {
            r.push(name);
            assert(names(r@) =~= before.push(rest[0]));
        }
        i = i + 1;
    }
    r
}

/// One command of `commands`, chosen at random.
pub fn get_command(commands: &Vec<String>) -> (r: &String)
    requires
        commands@.len() > 0,
    ensures
        exists|i: int| 0 <= i < commands@.len() && *r == commands@[i],
{
    let i = random_index(commands.len());
    &commands[i]
}

} // verus!
