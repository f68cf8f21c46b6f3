//! Answers of the computational engine.

use crate::error::Error;
use crate::irc_string::{safe, IrcString};
use vstd::prelude::*;

verus! {

/// One part of a pod as the engine returns it.
pub struct Subpod {
    pub plaintext: Option<String>,
}

/// A pod as the engine returns it.
pub struct Pod {
    pub title: String,
    pub id: String,
    pub error: bool,
    pub subpods: Vec<Subpod>,
}

/// A pod with an answer: its values are not empty, and there is at least one.
#[derive(Debug, Clone)]
pub struct WolframPod {
    pub id: String,
    pub title: IrcString,
    pub values: Vec<IrcString>,
}

/// The texts of the subpods that have one that is not empty, in their order.
pub open spec fn plain_texts(subpods: Seq<Subpod>) -> Seq<Seq<char>>
    decreases subpods.len(),
{
    if subpods.len() == 0 {
        Seq::empty()
    } else {
        let before = plain_texts(subpods.drop_last());
        match subpods.last().plaintext {
            Some(text) => if text@.len() > 0 {
                before.push(text@)
            } else {
                before
            },
            None => before,
        }
    }
}

/// A pod as contracts see it: its identifier, its title and its values.
pub struct PodView {
    pub id: Seq<char>,
    pub title: Seq<char>,
    pub values: Seq<Seq<char>>,
}

impl View for WolframPod {
    type V = PodView;

    open spec fn view(&self) -> PodView {
        PodView {
            id: self.id@,
            title: self.title@,
            values: Seq::new(self.values@.len(), |i: int| self.values@[i]@),
        }
    }
}

/// What is kept of a pod: the values are the texts of its subpods, sanitized.
pub open spec fn kept_pod(pod: Pod) -> PodView {
    PodView {
        id: pod.id@,
        title: safe(pod.title@),
        values: Seq::new(
            plain_texts(pod.subpods@).len(),
            |i: int| safe(plain_texts(pod.subpods@)[i]),
        ),
    }
}

/// The pods that have a value, in their order.
pub open spec fn answers(pods: Seq<Pod>) -> Seq<PodView>
    decreases pods.len(),
{
    if pods.len() == 0 {
        Seq::empty()
    } else {
        let before = answers(pods.drop_last());
        if plain_texts(pods.last().subpods@).len() > 0 {
            before.push(kept_pod(pods.last()))
        } else {
            before
        }
    }
}

/// The pods as contracts see them.
pub open spec fn pods_view(pods: Seq<WolframPod>) -> Seq<PodView> {
    Seq::new(pods.len(), |i: int| pods[i]@)
}

/// The values of a pod: the texts of its subpods that are not empty, each
/// sanitized.
fn values_of(subpods: &Vec<Subpod>) -> (values: Vec<IrcString>)
    ensures
        values@.len() == plain_texts(subpods@).len(),
        forall|i: int|
            0 <= i < values@.len() ==> (#[trigger] values@[i])@ == safe(plain_texts(subpods@)[i]),
{
    let mut values: Vec<IrcString> = Vec::new();
    let mut i: usize = 0;
    assert(subpods@.take(0) =~= Seq::<Subpod>::empty());
    while i < subpods.len()
        invariant
            i <= subpods.len(),
            values@.len() == plain_texts(subpods@.take(i as int)).len(),
            forall|j: int|
                0 <= j < values@.len() ==> (#[trigger] values@[j])@ == safe(
                    plain_texts(subpods@.take(i as int))[j],
                ),
        decreases subpods.len() - i,
    {
        assert(subpods@.take(i + 1).drop_last() =~= subpods@.take(i as int));
        assert(subpods@.take(i + 1).last() == subpods@[i as int]);
        match &subpods[i].plaintext {
            Some(text) => {
                if !text.as_str().is_empty() {
                    values.push(IrcString::from(text.as_str()));
                }
            },
            None => {},
        }
        i = i + 1;
    }
    assert(subpods@.take(subpods.len() as int) =~= subpods@);
    values
}

/// Picks the pods with an answer out of a response. The first pod restates
/// the question, so a response with fewer than two such pods answers nothing:
/// it is the error `NoResponsePod`.
pub fn select_pods(pods: Vec<Pod>) -> (r: Result<Vec<WolframPod>, Error>)
    ensures
        answers(pods@).len() > 1 ==> r is Ok && pods_view(r->Ok_0@) == answers(pods@),
        answers(pods@).len() <= 1 ==> r == Err::<Vec<WolframPod>, Error>(Error::NoResponsePod),
{
    let mut kept: Vec<WolframPod> = Vec::new();
    let mut i: usize = 0;
    assert(pods@.take(0) =~= Seq::<Pod>::empty());
    assert(pods_view(kept@) =~= answers(pods@.take(0)));
    while i < pods.len()
        invariant
            i <= pods.len(),
            pods_view(kept@) == answers(pods@.take(i as int)),
        decreases pods.len() - i,
    {
        assert(pods@.take(i + 1).drop_last() =~= pods@.take(i as int));
        assert(pods@.take(i + 1).last() == pods@[i as int]);
        let ghost before = pods_view(kept@);
        let values = values_of(&pods[i].subpods);
        if values.len() > 0 {
            let pod = WolframPod {
                id: pods[i].id.clone(),
                title: IrcString::from(pods[i].title.as_str()),
                values,
            };
            assert(pod@.values =~= kept_pod(pods@[i as int]).values);
            assert(pod@ == kept_pod(pods@[i as int]));
            kept.push(pod);
            assert(pods_view(kept@) =~= before.push(pod@));
        }
        i = i + 1;
    }
    assert(pods@.take(pods.len() as int) =~= pods@);
    if kept.len() > 1 {
        Ok(kept)
    } else {
        Err(Error::NoResponsePod)
    }
}

} // verus!
