//! A request for a fragment: the endpoint and the form to render it with.
use vstd::prelude::*;

use crate::ledger::{classified, history_or_empty, Form, FormLedger};

verus! {

/// An endpoint to render, with the form data to render it with.
#[derive(Debug)]
pub struct Template {
    pub path: String,
    pub form: Form,
}

/// How the form of a template joins the caller's render context.
#[derive(Debug, PartialEq, Eq, Structural)]
pub enum ContextPlan {
    /// Render with the caller's context as it is.
    AsGiven,
    /// There is no caller context: render with the form alone, under `form`.
    FormOnly,
    /// Add the form to the caller's context under `form`.
    WithForm,
}

impl Template {
    /// How to build the render context: the form goes under the reserved
    /// `form` key unless the caller's context already defines that key; with
    /// no caller context, an empty form is left out altogether.
    pub fn context_plan(&self, context_is_undefined: bool, context_has_form: bool) -> (r:
        ContextPlan)
        ensures
            r == if context_is_undefined {
                if self.form@.len() == 0 {
                    ContextPlan::AsGiven
                } else {
                    ContextPlan::FormOnly
                }
            } else if context_has_form {
                ContextPlan::AsGiven
            } else {
                ContextPlan::WithForm
            },
    {
        if context_is_undefined {
            if self.form.is_empty() {
                ContextPlan::AsGiven
            } else {
                ContextPlan::FormOnly
            }
        } else if context_has_form {
            ContextPlan::AsGiven
        } else {
            ContextPlan::WithForm
        }
    }
}

/// The template for a submission of `form_from_request` by `client` on
/// `this_endpoint`: the form is classified against the ledger (see
/// [`classified`]), so that a re-render of a live fragment gets the form it
/// was first rendered with.
pub fn template_hydrate(
    ledger: &mut FormLedger,
    client: &str,
    this_endpoint: String,
    form_from_request: Form,
) -> (r: Template)
    requires
        old(ledger).well_formed(),
    ensures
        final(ledger).well_formed(),
        r.path == this_endpoint,
        ({
            let (h, form) = classified(
                history_or_empty(old(ledger)@, (client@, this_endpoint@)),
                form_from_request@,
            );
            &&& final(ledger)@ == old(ledger)@.insert((client@, this_endpoint@), h)
            &&& r.form@ == form
        }),
{
    let form = ledger.classify(client, this_endpoint.as_str(), form_from_request);
    Template { path: this_endpoint, form }
}

} // verus!
