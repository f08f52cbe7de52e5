//! What the engine asks of a venue.

use crate::book::{BookView, OrderBook};
use crate::oms::OrderRequest;
use crate::orders::ExecutionReport;
use vstd::prelude::*;

verus! {

/// A place where orders are matched. The engine owns the order book and
/// lends it to the venue for the length of each call; the venue only reads
/// it. Reports are appended to `out` in the order in which they happened.
///
/// A venue may say in `submit_step` what a request leads to, and in
/// `sweep_ok` what a book update may lead to, in terms of a model of itself.
/// A `submit_step` that gives nothing, and a `sweep_ok` that holds of
/// everything, leave the call unspecified. A venue that does nothing on a
/// book update leaves the body of that method empty.
pub trait ExecutionVenue {
    /// What is known of the venue's state.
    type Model;

    /// The venue's state.
    open spec fn model(&self) -> Self::Model {
        arbitrary()
    }

    /// The reports that a request leads to against a book, and what the
    /// venue is left as.
    open spec fn submit_step(model: Self::Model, book: BookView, req: OrderRequest) -> Option<
        (Seq<ExecutionReport>, Self::Model),
    > {
        None
    }

    /// Whether a book update may turn `before` into `after` and leave the
    /// venue as `next`.
    open spec fn sweep_ok(
        model: Self::Model,
        book: BookView,
        before: Seq<ExecutionReport>,
        after: Seq<ExecutionReport>,
        next: Self::Model,
    ) -> bool {
        true
    }

    /// Takes in one request and appends the reports it leads to.
    fn submit(&mut self, book: &OrderBook, req: &OrderRequest, out: &mut Vec<ExecutionReport>)
        requires
            book.wf(),
        ensures
            Self::submit_step(old(self).model(), book@, *req) matches Some((reports, next))
                ==> final(out)@ == old(out)@ + reports && final(self).model() == next,
    ;

    /// Called after the book has changed: appends the reports of resting
    /// orders that the new book fills.
    fn on_book_update(&mut self, book: &OrderBook, out: &mut Vec<ExecutionReport>)
        requires
            book.wf(),
        ensures
            Self::sweep_ok(old(self).model(), book@, old(out)@, final(out)@, final(self).model()),
    ;
}

/// A boxed venue is the venue in the box: it has its model and its steps,
/// and each call goes to it.
impl<T: ExecutionVenue> ExecutionVenue for Box<T> {
    type Model = T::Model;

    open spec fn model(&self) -> T::Model {
        (**self).model()
    }

    open spec fn submit_step(model: T::Model, book: BookView, req: OrderRequest) -> Option<
        (Seq<ExecutionReport>, T::Model),
    > {
        T::submit_step(model, book, req)
    }

    open spec fn sweep_ok(
        model: T::Model,
        book: BookView,
        before: Seq<ExecutionReport>,
        after: Seq<ExecutionReport>,
        next: T::Model,
    ) -> bool {
        T::sweep_ok(model, book, before, after, next)
    }

    fn submit(&mut self, book: &OrderBook, req: &OrderRequest, out: &mut Vec<ExecutionReport>) {
        (**self).submit(book, req, out)
    }

    fn on_book_update(&mut self, book: &OrderBook, out: &mut Vec<ExecutionReport>) {
        (**self).on_book_update(book, out)
    }
}

} // verus!
