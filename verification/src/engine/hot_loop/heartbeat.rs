//! Heartbeats: when to send a sign of life, when to ask for one, and when a connection counts
//! as lost.
use vstd::prelude::*;

use crate::protocol::fix::{Fields, TAG_MSG_TYPE, TAG_SENDING_TIME, TAG_TEST_REQ_ID};
use crate::text::{dec, format_uint, join};

verus! {

/// The heartbeat interval of the order connection, in seconds.
pub const CCP_HEARTBEAT_SECS: u64 = 10;

/// The heartbeat interval of the data connections, in seconds.
pub const FARM_HEARTBEAT_SECS: u64 = 30;

/// How much longer than its interval a connection may be silent, in seconds.
pub const HEARTBEAT_GRACE_SECS: u64 = 1;

/// When each connection last sent and received, and the sign of life that was asked for and
/// has not come. Times are in milliseconds.
pub struct HeartbeatState {
    pub last_ccp_sent: u64,
    pub last_ccp_recv: u64,
    pub last_farm_sent: u64,
    pub last_farm_recv: u64,
    pub last_hmds_sent: u64,
    pub last_hmds_recv: u64,
    pub pending_ccp_test: Option<(String, u64)>,
    pub pending_farm_test: Option<(String, u64)>,
    pub pending_hmds_test: Option<(String, u64)>,
    pub test_req_counter: u32,
}

/// What is known of one connection.
pub ghost struct LinkView {
    pub sent: u64,
    pub recv: u64,
    pub pending: Option<(Seq<char>, u64)>,
}

/// What a [`HeartbeatState`] holds.
pub ghost struct HeartbeatView {
    pub ccp: LinkView,
    pub farm: LinkView,
    pub hmds: LinkView,
    pub counter: u32,
}

/// A request for a sign of life.
pub open spec fn pending_view(p: Option<(String, u64)>) -> Option<(Seq<char>, u64)> {
    match p {
        Some((id, at)) => Some((id@, at)),
        None => None,
    }
}

impl View for HeartbeatState {
    type V = HeartbeatView;

    open spec fn view(&self) -> HeartbeatView {
        HeartbeatView {
            ccp: LinkView {
                sent: self.last_ccp_sent,
                recv: self.last_ccp_recv,
                pending: pending_view(self.pending_ccp_test),
            },
            farm: LinkView {
                sent: self.last_farm_sent,
                recv: self.last_farm_recv,
                pending: pending_view(self.pending_farm_test),
            },
            hmds: LinkView {
                sent: self.last_hmds_sent,
                recv: self.last_hmds_recv,
                pending: pending_view(self.pending_hmds_test),
            },
            counter: self.test_req_counter,
        }
    }
}

/// A connection that sent and received just now.
pub open spec fn fresh_link(now: u64) -> LinkView {
    LinkView { sent: now, recv: now, pending: None }
}

/// The id of a request for a sign of life.
pub open spec fn test_id(n: int) -> Seq<char> {
    "T"@ + dec(n as nat)
}

/// The whole seconds between two times; 0 when the second is not later.
pub open spec fn seconds_between(earlier: u64, later: u64) -> int {
    if later <= earlier {
        0
    } else {
        (later - earlier) / 1000
    }
}

fn seconds_since(earlier: u64, now: u64) -> (r: u64)
    ensures
        r == seconds_between(earlier, now),
{
    if now <= earlier {
        0
    } else {
        (now - earlier) / 1000
    }
}

/// What is to be done about a connection.
pub ghost struct LinkStep {
    /// Whether a heartbeat is to be sent.
    pub heartbeat: bool,
    /// The id of the sign of life that is to be asked for, if one is.
    pub test: Option<Seq<char>>,
    /// Whether the connection counts as lost.
    pub lost: bool,
    /// What is known of the connection then.
    pub link: LinkView,
    /// How many signs of life have been asked for then.
    pub counter: int,
}

/// Whether a connection has been silent for too long.
pub open spec fn silent(link: LinkView, now: u64, interval: u64) -> bool {
    seconds_between(link.recv, now) > interval + HEARTBEAT_GRACE_SECS
}

/// What is to be done about a connection: it sends a heartbeat when it has sent nothing for an
/// interval; when it has been silent for longer, a sign of life is asked for; and when that
/// does not come within an interval, the connection is lost.
pub open spec fn link_step(link: LinkView, counter: int, now: u64, interval: u64) -> LinkStep {
    let idle = seconds_between(link.sent, now) >= interval;
    let sent = if idle {
        now
    } else {
        link.sent
    };
    if silent(link, now, interval) {
        match link.pending {
            Some((_, at)) => LinkStep {
                heartbeat: idle,
                test: None,
                lost: seconds_between(at, now) > interval,
                link: LinkView { sent, ..link },
                counter,
            },
            None => LinkStep {
                heartbeat: idle,
                test: Some(test_id(counter + 1)),
                lost: false,
                link: LinkView {
                    sent: now,
                    pending: Some((test_id(counter + 1), now)),
                    ..link
                },
                counter: counter + 1,
            },
        }
    } else {
        LinkStep {
            heartbeat: idle,
            test: None,
            lost: false,
            link: LinkView { sent, ..link },
            counter,
        }
    }
}

/// What is to be done about a connection.
pub struct LinkAction {
    /// Whether a heartbeat is to be sent.
    pub heartbeat: bool,
    /// The id of the sign of life that is to be asked for, if one is.
    pub test: Option<String>,
    /// Whether the connection counts as lost.
    pub lost: bool,
}

impl LinkAction {
    /// Whether the action is that of a step.
    pub open spec fn is(self, step: LinkStep) -> bool {
        self.heartbeat == step.heartbeat && crate::bridge::text_of_option(self.test) == step.test
            && self.lost == step.lost
    }

    /// Nothing is to be done.
    pub open spec fn is_nothing(self) -> bool {
        !self.heartbeat && self.test is None && !self.lost
    }
}

fn nothing_to_do() -> (r: LinkAction)
    ensures
        r.is_nothing(),
{
    LinkAction { heartbeat: false, test: None, lost: false }
}

fn test_id_of(n: u32) -> (r: String)
    ensures
        r@ == test_id(n as int),
{
    join("T", format_uint(n as u64).as_str())
}

fn check_link(
    last_sent: &mut u64,
    last_recv: u64,
    pending: &mut Option<(String, u64)>,
    counter: &mut u32,
    now: u64,
    interval: u64,
) -> (r: LinkAction)
    requires
        *old(counter) < u32::MAX,
        interval <= 1_000_000,
    ensures
        ({
            let step = link_step(
                LinkView {
                    sent: *old(last_sent),
                    recv: last_recv,
                    pending: pending_view(*old(pending)),
                },
                *old(counter) as int,
                now,
                interval,
            );
            &&& r.is(step)
            &&& step.link == (LinkView {
                sent: *final(last_sent),
                recv: last_recv,
                pending: pending_view(*final(pending)),
            })
            &&& step.counter == *final(counter)
        }),
{
    let heartbeat = seconds_since(*last_sent, now) >= interval;
    let mut action = LinkAction { heartbeat, test: None, lost: false };
    if heartbeat {
        *last_sent = now;
    }
    if seconds_since(last_recv, now) > interval + HEARTBEAT_GRACE_SECS {
        let asked_at: Option<u64> = match pending {
            Some((_, at)) => Some(*at),
            None => None,
        };
        match asked_at {
            Some(at) => {
                action.lost = seconds_since(at, now) > interval;
            },
            None => {
                *counter = *counter + 1;
                *pending = Some((test_id_of(*counter), now));
                action.test = Some(test_id_of(*counter));
                *last_sent = now;
            },
        }
    }
    action
}

/// What is to be done about the connections.
pub struct BeatPlan {
    pub ccp: LinkAction,
    pub farm: LinkAction,
    pub hmds: LinkAction,
}

/// What is to be done about a connection that may be out of use.
pub open spec fn step_if(
    used: bool,
    link: LinkView,
    counter: int,
    now: u64,
    interval: u64,
) -> LinkStep {
    if used {
        link_step(link, counter, now, interval)
    } else {
        LinkStep { heartbeat: false, test: None, lost: false, link, counter }
    }
}

impl HeartbeatState {
    /// Every connection sent and received just now.
    pub fn new(now: u64) -> (r: Self)
        ensures
            r@ == (HeartbeatView {
                ccp: fresh_link(now),
                farm: fresh_link(now),
                hmds: fresh_link(now),
                counter: 0,
            }),
    {
        HeartbeatState {
            last_ccp_sent: now,
            last_ccp_recv: now,
            last_farm_sent: now,
            last_farm_recv: now,
            last_hmds_sent: now,
            last_hmds_recv: now,
            pending_ccp_test: None,
            pending_farm_test: None,
            pending_hmds_test: None,
            test_req_counter: 0,
        }
    }

    /// A new id for a request for a sign of life.
    pub fn next_test_id(&mut self) -> (r: String)
        requires
            old(self)@.counter < u32::MAX,
        ensures
            r@ == test_id(old(self)@.counter + 1),
            final(self)@ == (HeartbeatView {
                counter: (old(self)@.counter + 1) as u32,
                ..old(self)@
            }),
    {
        self.test_req_counter = self.test_req_counter + 1;
        test_id_of(self.test_req_counter)
    }

    /// The order connection has received something. Gives how long ago the sign of life was
    /// asked for that this answers, if one was, in milliseconds.
    pub fn ccp_received(&mut self, now: u64) -> (r: Option<u64>)
        ensures
            final(self)@ == (HeartbeatView {
                ccp: LinkView { recv: now, pending: None, ..old(self)@.ccp },
                ..old(self)@
            }),
            r == match old(self)@.ccp.pending {
                Some((_, at)) => Some(
                    if at <= now {
                        (now - at) as u64
                    } else {
                        0u64
                    },
                ),
                None => None,
            },
    {
        self.last_ccp_recv = now;
        match self.pending_ccp_test.take() {
            Some((_, at)) => Some(
                if at <= now {
                    now - at
                } else {
                    0
                },
            ),
            None => None,
        }
    }

    /// The farm connection has received something.
    pub fn farm_received(&mut self, now: u64)
        ensures
            final(self)@ == (HeartbeatView {
                farm: LinkView { recv: now, pending: None, ..old(self)@.farm },
                ..old(self)@
            }),
    {
        self.last_farm_recv = now;
        self.pending_farm_test = None;
    }

    /// The history connection has received something.
    pub fn hmds_received(&mut self, now: u64)
        ensures
            final(self)@ == (HeartbeatView {
                hmds: LinkView { recv: now, pending: None, ..old(self)@.hmds },
                ..old(self)@
            }),
    {
        self.last_hmds_recv = now;
        self.pending_hmds_test = None;
    }

    /// The order connection is new.
    pub fn ccp_reconnected(&mut self, now: u64)
        ensures
            final(self)@ == (HeartbeatView { ccp: fresh_link(now), ..old(self)@ }),
    {
        self.last_ccp_sent = now;
        self.last_ccp_recv = now;
        self.pending_ccp_test = None;
    }

    /// The farm connection is new.
    pub fn farm_reconnected(&mut self, now: u64)
        ensures
            final(self)@ == (HeartbeatView { farm: fresh_link(now), ..old(self)@ }),
    {
        self.last_farm_sent = now;
        self.last_farm_recv = now;
        self.pending_farm_test = None;
    }

    /// Looks at the time: what is to be done about each connection that is in use.
    pub fn check_heartbeats(&mut self, now: u64, ccp: bool, farm: bool, hmds: bool) -> (r: BeatPlan)
        requires
            old(self)@.counter < u32::MAX - 2,
        ensures
            ({
                let s = old(self)@;
                let c = step_if(ccp, s.ccp, s.counter as int, now, CCP_HEARTBEAT_SECS);
                let f = step_if(farm, s.farm, c.counter, now, FARM_HEARTBEAT_SECS);
                let h = step_if(hmds, s.hmds, f.counter, now, FARM_HEARTBEAT_SECS);
                &&& r.ccp.is(c)
                &&& r.farm.is(f)
                &&& r.hmds.is(h)
                &&& final(self)@ == (HeartbeatView {
                    ccp: c.link,
                    farm: f.link,
                    hmds: h.link,
                    counter: h.counter as u32,
                })
            }),
    {
        let c = if ccp {
            check_link(
                &mut self.last_ccp_sent,
                self.last_ccp_recv,
                &mut self.pending_ccp_test,
                &mut self.test_req_counter,
                now,
                CCP_HEARTBEAT_SECS,
            )
        } else {
            nothing_to_do()
        };
        let f = if farm {
            check_link(
                &mut self.last_farm_sent,
                self.last_farm_recv,
                &mut self.pending_farm_test,
                &mut self.test_req_counter,
                now,
                FARM_HEARTBEAT_SECS,
            )
        } else {
            nothing_to_do()
        };
        let h = if hmds {
            check_link(
                &mut self.last_hmds_sent,
                self.last_hmds_recv,
                &mut self.pending_hmds_test,
                &mut self.test_req_counter,
                now,
                FARM_HEARTBEAT_SECS,
            )
        } else {
            nothing_to_do()
        };
        BeatPlan { ccp: c, farm: f, hmds: h }
    }
}

/// The fields of a heartbeat.
pub open spec fn heartbeat_message(now: Seq<char>) -> Seq<(u32, Seq<char>)> {
    seq![(35u32, "0"@), (52u32, now)]
}

/// A heartbeat.
pub fn heartbeat_fields(now: &str) -> (r: Fields)
    ensures
        r@ == heartbeat_message(now@),
{
    let mut f = Fields::new();
    f.put_str(TAG_MSG_TYPE, "0");
    f.put_str(TAG_SENDING_TIME, now);
    proof {
        assert(f@ =~= heartbeat_message(now@));
    }
    f
}

/// The fields of a request for a sign of life.
pub open spec fn test_request_message(now: Seq<char>, id: Seq<char>) -> Seq<(u32, Seq<char>)> {
    seq![(35u32, "1"@), (52u32, now), (112u32, id)]
}

/// A request for a sign of life.
pub fn test_request_fields(now: &str, id: &str) -> (r: Fields)
    ensures
        r@ == test_request_message(now@, id@),
{
    let mut f = Fields::new();
    f.put_str(TAG_MSG_TYPE, "1");
    f.put_str(TAG_SENDING_TIME, now);
    f.put_str(TAG_TEST_REQ_ID, id);
    proof {
        assert(f@ =~= test_request_message(now@, id@));
    }
    f
}

// ---------------------------------------------------------------------------------------
// Laws
// ---------------------------------------------------------------------------------------

/// No connection is given up unasked: one that is lost was asked for a sign of life more than
/// an interval ago, and has been silent for longer than an interval.
pub proof fn law_lost_only_after_asking(link: LinkView, counter: int, now: u64, interval: u64)
    requires
        link_step(link, counter, now, interval).lost,
    ensures
        silent(link, now, interval),
        link.pending matches Some((_, at)) && seconds_between(at, now) > interval,
{
}

/// A connection that falls silent does not go unnoticed: a sign of life is asked for when the
/// silence has lasted too long, and if nothing comes by a look at the time that is more than
/// an interval later, the connection is lost.
pub proof fn law_silence_is_noticed(
    link: LinkView,
    counter: int,
    asked: u64,
    later: u64,
    interval: u64,
)
    requires
        link.pending is None,
        silent(link, asked, interval),
        seconds_between(asked, later) > interval,
    ensures
        ({
            let first = link_step(link, counter, asked, interval);
            &&& first.test == Some(test_id(counter + 1))
            &&& !first.lost
            &&& link_step(first.link, first.counter, later, interval).lost
        }),
{
    let first = link_step(link, counter, asked, interval);
    assert(seconds_between(link.recv, later) >= seconds_between(link.recv, asked)) by {
        assert(later >= asked);
        vstd::arithmetic::div_mod::lemma_div_is_ordered(
            asked - link.recv,
            later - link.recv,
            1000,
        );
    }
}

/// Traffic keeps a connection alive: one that has received something within the interval is
/// neither asked for a sign of life nor lost.
pub proof fn law_traffic_keeps_alive(link: LinkView, counter: int, now: u64, interval: u64)
    requires
        seconds_between(link.recv, now) <= interval,
    ensures
        link_step(link, counter, now, interval).test is None,
        !link_step(link, counter, now, interval).lost,
{
}

} // verus!
