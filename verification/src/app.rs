//! The application builder: a route table and a state container,
//! assembled before the server starts listening.

use vstd::prelude::*;

use crate::router::{spec_routes_for, table_ok, HttpMethod, Route, RouteTable};
use crate::state::{spec_state_get, state_wf, AppState};

verus! {

/// An application under construction: its routes and its shared
/// state. Serving starts only after both are complete.
pub struct Rapina {
    pub router: RouteTable,
    pub state: AppState,
}

impl Rapina {
    /// An application with no routes and no state.
    pub fn new() -> (r: Rapina)
        ensures
            table_ok(r.router),
            !r.router.prepared,
            forall|m: HttpMethod| #[trigger]
                spec_routes_for(r.router, m) == Seq::<Route>::empty(),
            state_wf(r.state),
            forall|k: u64| #[trigger] spec_state_get(r.state, k) == Option::<u64>::None,
    {
        Rapina { router: RouteTable::new(), state: AppState::new() }
    }

    /// Replaces the application's route table.
    pub fn router(self, router: RouteTable) -> (r: Rapina)
        ensures
            r.router == router,
            r.state == self.state,
    {
        Rapina { router, ..self }
    }

    /// Stores a value in the application state under a type key,
    /// replacing any previous value under that key.
    pub fn state(self, key: u64, value: u64) -> (r: Rapina)
        requires
            state_wf(self.state),
        ensures
            r.router == self.router,
            state_wf(r.state),
            spec_state_get(r.state, key) == Option::Some(value),
            forall|k2: u64|
                k2 != key ==> #[trigger] spec_state_get(r.state, k2) == spec_state_get(
                    self.state,
                    k2,
                ),
    {
        let st = self.state.with(key, value);
        Rapina { state: st, ..self }
    }
}

} // verus!
