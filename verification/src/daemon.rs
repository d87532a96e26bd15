//! The local services' state: the WireGuard agent that holds at most one
//! session, and the background auto-connect task of the desktop service and
//! the UI.

use std::sync::Arc;

use vstd::prelude::*;

use crate::agent::{
    is_agent_error_of, session_described, session_parse, AgentError, BasicResponse, ConnectRequest, StatusResponse,
};
use crate::command::{share, CommandExecutor};
use crate::error::CoreError;
use crate::session::{session_started, stop_steps, undone_all, SessionPolicy, WireguardSessionManager};
use crate::text::owned;
use crate::types::Platform;
use crate::wg::{SessionManager, WgDeviceConfig};

verus! {

/// A running session and its interface.
struct SessionHandle<E: CommandExecutor> {
    manager: WireguardSessionManager<E>,
    iface: String,
}

/// The WireGuard agent: brings one session up on request and down again.
pub struct WireguardAgent<E: CommandExecutor> {
    runner: Arc<E>,
    platform: Platform,
    session: Option<SessionHandle<E>>,
}

impl<E: CommandExecutor> WireguardAgent<E> {
    /// A session that is up was started by this agent's executor on its
    /// platform, and remembers its interface.
    #[verifier::type_invariant]
    spec fn session_agrees(&self) -> bool {
        match self.session {
            Some(h) => {
                &&& h.manager.executor() == *self.runner
                &&& h.manager.platform_of() == self.platform
                &&& h.manager.is_active()
                &&& h.manager.policy_of().interface@ == h.iface@
            },
            None => true,
        }
    }

    pub fn new(executor: Arc<E>, platform: Platform) -> (r: Self)
        ensures
            !r.is_connected(),
            r.platform_of() == platform,
            r.executor() == *executor,
    {
        WireguardAgent { runner: executor, platform, session: None }
    }

    /// The executor that runs the commands.
    pub closed spec fn executor(&self) -> E {
        *self.runner
    }

    /// The policy of the session that is up.
    pub closed spec fn session_policy(&self) -> SessionPolicy {
        match self.session {
            Some(h) => h.manager.policy_of(),
            None => vstd::pervasive::arbitrary(),
        }
    }

    /// The routes that the session that is up added.
    pub closed spec fn session_routes(&self) -> (Seq<Seq<char>>, Seq<Seq<char>>) {
        match self.session {
            Some(h) => h.manager.active_routes(),
            None => (seq![], seq![]),
        }
    }

    /// A session is up.
    pub closed spec fn is_connected(&self) -> bool {
        self.session is Some
    }

    /// The interface of the session that is up.
    pub closed spec fn interface_of(&self) -> Seq<char> {
        match self.session {
            Some(h) => h.iface@,
            None => seq![],
        }
    }

    /// The platform whose tools the agent drives.
    pub closed spec fn platform_of(&self) -> Platform {
        self.platform
    }

    /// `connected` with the session's interface, or `disconnected`.
    pub fn status(&self) -> (r: StatusResponse)
        ensures
            self.is_connected() ==> (r.interface matches Some(i) && i@ == self.interface_of() && r.status@
                == "connected"@),
            !self.is_connected() ==> r.status@ == "disconnected"@ && r.interface is None,
    {
        match &self.session {
            Some(h) => StatusResponse { status: "connected", interface: Some(owned(h.iface.as_str())) },
            None => StatusResponse { status: "disconnected", interface: None },
        }
    }

    /// Brings a session up for the request. A second session is a
    /// conflict; a malformed request a bad request; a failed start the
    /// start's error, mapped as `AgentError::from_core` maps it. Only a
    /// started session changes the agent's state.
    pub fn connect(&mut self, payload: ConnectRequest) -> (r: Result<BasicResponse, AgentError>)
        ensures
            final(self).platform_of() == old(self).platform_of(),
            old(self).is_connected() ==> (r matches Err(e) && e matches AgentError::Conflict(m) && m@
                == "session already active"@),
            (!old(self).is_connected() && session_parse(payload) is Err) ==> (r matches Err(e) && e matches AgentError::BadRequest(
                m,
            ) && m@ == session_parse(payload)->Err_0),
            (!old(self).is_connected() && session_parse(payload) is Ok && old(self).platform_of() != Platform::Linux)
                ==> (r matches Err(e) && e matches AgentError::NotImplemented(m) && m@ == "platform not yet supported"@),
            r is Err ==> final(self).is_connected() == old(self).is_connected() && final(self).interface_of()
                == old(self).interface_of(),
            r matches Ok(b) ==> b.status@ == "connected"@ && final(self).is_connected()
                && final(self).interface_of() == payload.interface@,
            (!old(self).is_connected() && session_parse(payload) is Ok && old(self).platform_of() == Platform::Linux)
                ==> exists|cfg: WgDeviceConfig, pol: SessionPolicy, rs: Result<(), CoreError>|
                session_described(payload, session_parse(payload)->Ok_0, cfg, pol) && #[trigger] session_started(
                    &old(self).executor(),
                    cfg,
                    pol,
                    rs,
                ) && match rs {
                    Err(x) => r matches Err(e) && is_agent_error_of(x, e),
                    Ok(_) => r is Ok,
                },
            final(self).executor() == old(self).executor(),
    {
        proof {
            use_type_invariant(&*self);
        }
        if self.session.is_some() {
            return Err(AgentError::Conflict(owned("session already active")));
        }
        let (config, policy) = payload.into_session()?;
        let ghost gcfg = config;
        let ghost gpol = policy;
        let (rs, manager) = self.start_manager(&config, policy);
        let ghost grs = rs;
        match rs {
            Ok(()) => {},
            Err(e) => {
                let r = AgentError::from_core(e);
                proof {
                    assert(self.platform == Platform::Linux ==> session_started(&self.executor(), gcfg, gpol, grs));
                }
                return Err(r);
            },
        }
        self.session = Some(SessionHandle { manager, iface: config.name });
        Ok(BasicResponse { status: "connected" })
    }

    /// A fresh manager for `policy` that has tried to start `cfg`.
    fn start_manager(&self, cfg: &WgDeviceConfig, policy: SessionPolicy) -> (r: (
        Result<(), CoreError>,
        WireguardSessionManager<E>,
    ))
        requires
            cfg.peers@.len() > 0,
            cfg.name@ == policy.interface@,
        ensures
            r.1.executor() == self.executor(),
            r.1.platform_of() == self.platform_of(),
            r.1.policy_of() == policy,
            r.0 is Ok ==> r.1.is_active(),
            self.platform_of() == Platform::Linux ==> session_started(&self.executor(), *cfg, policy, r.0),
            self.platform_of() != Platform::Linux ==> (r.0 matches Err(e) && e is UnsupportedPlatform),
    {
        let mut manager = WireguardSessionManager::new(share(&self.runner), self.platform, policy);
        let rs = manager.start(cfg);
        (rs, manager)
    }

    /// Stops the session, if one is up. Always succeeds and leaves none.
    pub fn disconnect(&mut self) -> (r: Result<BasicResponse, AgentError>)
        ensures
            r matches Ok(b) && b.status@ == "disconnected"@,
            !final(self).is_connected(),
            final(self).platform_of() == old(self).platform_of(),
            final(self).executor() == old(self).executor(),
            old(self).is_connected() ==> undone_all(
                &old(self).executor(),
                old(self).platform_of(),
                old(self).interface_of(),
                old(self).session_routes().0,
                old(self).session_routes().1,
                stop_steps(old(self).session_policy(), old(self).platform_of()),
            ),
    {
        proof {
            use_type_invariant(&*self);
        }
        let mut st: Option<SessionHandle<E>> = None;
        std::mem::swap(&mut st, &mut self.session);
        match st {
            Some(h) => {
                let mut manager = h.manager;
                match manager.stop() {
                    Ok(()) => {},
                    Err(e) => return Err(AgentError::from_core(e)),
                }
            },
            None => {},
        }
        Ok(BasicResponse { status: "disconnected" })
    }
}

/// Whether a background auto-connect task runs.
#[derive(Debug, Clone, Copy, Default)]
pub struct BackgroundTask {
    running: bool,
}

impl BackgroundTask {
    pub fn new() -> (r: Self)
        ensures
            !r.is_running(),
    {
        BackgroundTask { running: false }
    }

    /// The task runs.
    pub closed spec fn is_running(&self) -> bool {
        self.running
    }

    /// Whether the task runs.
    pub fn running(&self) -> (r: bool)
        ensures
            r == self.is_running(),
    {
        self.running
    }

    /// Records a started task; a second one is refused with
    /// `already running`.
    pub fn start(&mut self) -> (r: Result<(), &'static str>)
        ensures
            old(self).is_running() ==> (r matches Err(m) && m@ == "already running"@ && final(self).is_running()),
            !old(self).is_running() ==> r is Ok && final(self).is_running(),
    {
        if self.running {
            return Err("already running");
        }
        self.running = true;
        Ok(())
    }

    /// Records a stopped task.
    pub fn stop(&mut self)
        ensures
            !final(self).is_running(),
    {
        self.running = false;
    }

    /// `running` or `stopped`.
    pub fn status_text(&self) -> (r: &'static str)
        ensures
            r@ == (if self.is_running() {
                "running"@
            } else {
                "stopped"@
            }),
    {
        if self.running {
            "running"
        } else {
            "stopped"
        }
    }
}

} // verus!
