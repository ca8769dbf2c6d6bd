//! The work an editor page hands back after handling a message: pending
//! computations, each of which yields a message when it completes.
use vstd::prelude::*;

verus! {

/// Pending computations of type `F`, in the order they were handed over.
pub struct Task<F> {
    futures: Vec<F>,
}

impl<F> View for Task<F> {
    type V = Seq<F>;

    closed spec fn view(&self) -> Seq<F> {
        self.futures@
    }
}

/// The computations of `tasks`, task by task.
pub open spec fn flatten_tasks<F>(tasks: Seq<Task<F>>) -> Seq<F>
    decreases tasks.len(),
{
    if tasks.len() == 0 {
        Seq::empty()
    } else {
        tasks[0]@ + flatten_tasks(tasks.drop_first())
    }
}

impl<F> Task<F> {
    /// No work.
    pub fn none() -> (t: Self)
        ensures
            t@ == Seq::<F>::empty(),
    {
        Task { futures: Vec::new() }
    }

    /// One computation.
    pub fn perform(future: F) -> (t: Self)
        ensures
            t@ == seq![future],
    {
        let mut futures = Vec::new();
        futures.push(future);
        Task { futures }
    }

    /// The computations of all `tasks`, in order.
    pub fn multiple(tasks: Vec<Task<F>>) -> (t: Self)
        ensures
            t@ == flatten_tasks(tasks@),
    {
        let ghost all = tasks@;
        let mut rest = tasks;
        let mut futures: Vec<F> = Vec::new();
        while rest.len() > 0
            invariant
                futures@ + flatten_tasks(rest@) == flatten_tasks(all),
            decreases rest.len(),
        {
            let ghost before = rest@;
            let t = rest.remove(0);
            proof {
                assert(rest@ == before.drop_first());
            }
            let mut fs = t.futures;
            let ghost old_futures = futures@;
            futures.append(&mut fs);
            proof {
                assert(futures@ + flatten_tasks(rest@) =~= old_futures + flatten_tasks(before));
            }
        }
        assert(futures@ + flatten_tasks(rest@) =~= futures@);
        Task { futures }
    }

    /// The computations, for running them.
    pub fn into_futures(self) -> (v: Vec<F>)
        ensures
            v@ == self@,
    {
        self.futures
    }
}

} // verus!
