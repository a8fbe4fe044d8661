use vstd::prelude::*;

verus! {

/// The value of the first parameter named `key`, or the empty string when
/// no parameter carries that name.
pub open spec fn spec_query_param(params: Seq<(String, String)>, key: Seq<char>) -> Seq<char>
    decreases params.len(),
{
    if params.len() == 0 {
        Seq::empty()
    } else if params[0].0@ == key {
        params[0].1@
    } else {
        spec_query_param(params.drop_first(), key)
    }
}

/// Look a key up in a parsed query string: the value of its first
/// occurrence, or the empty string when it does not occur.
pub fn get_query_param(params: &Vec<(String, String)>, target_key: &String) -> (r: String)
    ensures
        r@ == spec_query_param(params@, target_key@),
{
    let mut i: usize = 0;
    proof {
        assert(params@.skip(0) =~= params@);
    }
    while i < params.len()
        invariant
            i <= params@.len(),
            spec_query_param(params@, target_key@) == spec_query_param(
                params@.skip(i as int),
                target_key@,
            ),
        decreases params@.len() - i,
    {
        let pair = &params[i];
        if pair.0 == *target_key {
            proof {
                assert(params@.skip(i as int)[0] == params@[i as int]);
            }
            return pair.1.clone();
        }
        proof {
            assert(params@.skip(i as int).drop_first() =~= params@.skip(i + 1));
            assert(params@.skip(i as int)[0] == params@[i as int]);
        }
        i = i + 1;
    }
    proof {
        assert(params@.skip(params@.len() as int) =~= Seq::<(String, String)>::empty());
    }
    String::new()
}

} // verus!
