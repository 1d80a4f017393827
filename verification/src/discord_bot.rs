//! What the bot does about a reaction to a message with pictures.

use vstd::prelude::*;
use crate::text::same_text;

verus! {

/// Whether a reaction with `emoji` asks the bot to work on the message:
/// only the hundred points symbol does.
pub fn is_trigger(emoji: &str) -> (r: bool)
    ensures
        r == (emoji@ == "\u{1F4AF}"@),
{
    same_text(emoji, "\u{1F4AF}")
}

/// What is done about a reaction, once the message is at hand.
#[derive(Clone, Copy, Debug)]
pub enum ReactionPlan {
    /// Nothing: the message has no attachments.
    Nothing,
    /// The picture `filename` is laid over each of the `count` attachments,
    /// mirrored or not, and the results are sent together.
    Enhance { filename: &'static str, mirror: bool, count: usize },
}

/// What is done about a reaction to a message with `attachments`
/// attachments.
pub fn handle_reaction(attachments: usize) -> (r: ReactionPlan)
    ensures
        attachments == 0 ==> r is Nothing,
        attachments > 0 ==> {
            &&& r matches ReactionPlan::Enhance { filename, mirror, count }
            &&& filename@ == "foxify"@
            &&& !mirror
            &&& count == attachments
        },
{
    if attachments == 0 {
        ReactionPlan::Nothing
    } else {
        ReactionPlan::Enhance { filename: "foxify", mirror: false, count: attachments }
    }
}

/// The place of the first failure in `results`; their number where none
/// failed.
pub open spec fn first_failure<T, E>(results: Seq<Result<T, E>>) -> int
    decreases results.len(),
{
    if results.len() == 0 || results[0] is Err {
        0
    } else {
        1 + first_failure(results.skip(1))
    }
}

/// `first_failure` is the one `n` such that nothing before `n` failed and
/// the result at `n`, if there is one, is a failure.
pub proof fn lemma_first_failure<T, E>(results: Seq<Result<T, E>>, n: int)
    requires
        0 <= n <= results.len(),
        forall|i: int| 0 <= i < n ==> (#[trigger] results[i]) is Ok,
        n < results.len() ==> results[n] is Err,
    ensures
        first_failure(results) == n,
    decreases n,
{
    if n > 0 {
        let rest = results.skip(1);
        assert(results[0] is Ok);
        assert forall|i: int| 0 <= i < n - 1 implies (#[trigger] rest[i]) is Ok by {
            assert(rest[i] == results[i + 1]);
        }
        lemma_first_failure(rest, n - 1);
    }
}

/// The pictures of `results` in their order where every one was made;
/// else the first failure, and no picture.
pub fn collect_images<E>(results: Vec<Result<Vec<u8>, E>>) -> (r: Result<Vec<Vec<u8>>, E>)
    ensures
        match r {
            Ok(images) => first_failure(results@) == results.len() && images.len() == results.len()
                && forall|i: int|
                0 <= i < images.len() ==> Ok::<Vec<u8>, E>(#[trigger] images[i]) == results[i],
            Err(e) => first_failure(results@) < results.len() && Err::<Vec<u8>, E>(e)
                == results[first_failure(results@)],
        },
{
    let ghost all = results@;
    let n = results.len();
    let mut rest = results;
    let mut images: Vec<Vec<u8>> = Vec::new();
    let mut i: usize = 0;
    while i < n
        invariant
            all == results@,
            n == all.len(),
            i <= n,
            rest@ == all.skip(i as int),
            images.len() == i,
            forall|j: int| 0 <= j < i ==> Ok::<Vec<u8>, E>(#[trigger] images[j]) == all[j],
        decreases n - i,
    {
        assert(rest@[0] == all[i as int]);
        let next = rest.remove(0);
        assert(rest@ =~= all.skip(i + 1));
        match next {
            Ok(image) => {
                images.push(image);
            },
            Err(e) => {
                proof {
                    assert forall|j: int| 0 <= j < i implies (#[trigger] all[j]) is Ok by {
                        assert(Ok::<Vec<u8>, E>(images[j]) == all[j]);
                    }
                    lemma_first_failure(all, i as int);
                }
                return Err(e);
            },
        }
        i += 1;
    }
    proof {
        assert forall|j: int| 0 <= j < n implies (#[trigger] all[j]) is Ok by {
            assert(Ok::<Vec<u8>, E>(images[j]) == all[j]);
        }
        lemma_first_failure(all, n as int);
    }
    Ok(images)
}

} // verus!
