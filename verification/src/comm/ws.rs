//! The event connection to the runtime.

use vstd::prelude::*;

use crate::comm::error::{ErrorModel, SdkError};
use crate::text::{concat, same_text, texts};
use crate::time::{secs, Duration};

verus! {

/// Seconds between two signs of life on the connection.
pub const PING_SECS: u64 = 30;

/// Knows what events are wanted; the connection is elsewhere.
#[derive(Debug)]
pub struct WsClient {
    pub ws_url: String,
    /// The names and patterns that are wanted, in the order in which they came.
    pub subscriptions: Vec<String>,
}

/// Whether no text occurs twice.
pub open spec fn all_different(v: Seq<Seq<char>>) -> bool {
    forall|i: int, j: int| 0 <= i < j < v.len() ==> #[trigger] v[i] != #[trigger] v[j]
}

/// The texts without one of them.
pub open spec fn without_text(v: Seq<Seq<char>>, s: Seq<char>) -> Seq<Seq<char>> {
    v.filter(|t: Seq<char>| t != s)
}

impl WsClient {
    /// No event is wanted twice.
    pub open spec fn wf(self) -> bool {
        all_different(texts(self.subscriptions@))
    }

    /// A client that wants nothing.
    pub fn new(ws_url: String) -> (r: Self)
        ensures
            r.wf(),
            r.ws_url == ws_url,
            r.subscriptions@.len() == 0,
    {
        WsClient { ws_url, subscriptions: Vec::new() }
    }

    /// Wants an event, if it does not yet.
    pub fn subscribe(&mut self, event_type: String)
        requires
            old(self).wf(),
        ensures
            texts(final(self).subscriptions@) == with_text(
                texts(old(self).subscriptions@),
                event_type@,
            ),
            final(self).wf(),
            final(self).ws_url == old(self).ws_url,
            texts(old(self).subscriptions@).contains(event_type@) ==> final(self).subscriptions@
                == old(self).subscriptions@,
            !texts(old(self).subscriptions@).contains(event_type@) ==> final(self).subscriptions@
                == old(self).subscriptions@.push(event_type),
    {
        let ghost ts = texts(self.subscriptions@);
        match crate::text::position_of(&self.subscriptions, event_type.as_str()) {
            Some(i) => {
                assert(ts[i as int] == event_type@);
            },
            None => {
                assert(!ts.contains(event_type@)) by {
                    if ts.contains(event_type@) {
                        let k = choose|k: int| 0 <= k < ts.len() && ts[k] == event_type@;
                        assert(self.subscriptions@[k]@ == event_type@);
                    }
                }
                let ghost e = event_type@;
                self.subscriptions.push(event_type);
                proof {
                    let us = texts(self.subscriptions@);
                    assert forall|i: int, j: int| 0 <= i < j < us.len() implies #[trigger] us[i]
                        != #[trigger] us[j] by {
                        assert(us[i] == ts[i]);
                        if j < ts.len() {
                            assert(us[j] == ts[j]);
                        }
                    }
                }
            },
        }
    }

    /// Wants an event no more.
    pub fn unsubscribe(&mut self, event_type: &str)
        requires
            old(self).wf(),
        ensures
            final(self).wf(),
            final(self).ws_url == old(self).ws_url,
            texts(final(self).subscriptions@) == without_text(
                texts(old(self).subscriptions@),
                event_type@,
            ),
            !texts(final(self).subscriptions@).contains(event_type@),
    {
        let ghost all = texts(self.subscriptions@);
        let ghost pred = |t: Seq<char>| t != event_type@;
        let mut kept: Vec<String> = Vec::new();
        let mut i: usize = 0;
        proof {
            reveal(Seq::filter);
            assert(all.take(0) =~= Seq::<Seq<char>>::empty());
            assert(texts(kept@) =~= all.take(0).filter(pred));
        }
        while i < self.subscriptions.len()
            invariant
                *self == *old(self),
                all == texts(self.subscriptions@),
                pred == (|t: Seq<char>| t != event_type@),
                i <= self.subscriptions@.len(),
                texts(kept@) == all.take(i as int).filter(pred),
            decreases self.subscriptions@.len() - i,
        {
            let ghost before = kept@;
            proof {
                reveal(Seq::filter);
                assert(all.take(i + 1).drop_last() =~= all.take(i as int));
                assert(all[i as int] == self.subscriptions@[i as int]@);
            }
            if !same_text(self.subscriptions[i].as_str(), event_type) {
                kept.push(self.subscriptions[i].clone());
                proof {
                    assert(texts(kept@) =~= texts(before).push(all[i as int]));
                }
            }
            i = i + 1;
        }
        proof {
            assert(all.take(i as int) =~= all);
            let ks = texts(kept@);
            lemma_filter_keeps_different(all, pred);
            assert(!ks.contains(event_type@)) by {
                if ks.contains(event_type@) {
                    let k = choose|k: int| 0 <= k < ks.len() && ks[k] == event_type@;
                    all.lemma_filter_pred(pred, k);
                }
            }
        }
        self.subscriptions = kept;
    }

    /// Where the connection goes: the token stands behind the URL. Without a token
    /// there is no connection.
    pub fn connect_url(&self, token: Option<&str>) -> (r: Result<String, SdkError>)
        ensures
            match (r, token) {
                (Ok(url), Some(t)) => url@ == url_with_token(self.ws_url@, t@),
                (Err(_), None) => true,
                _ => false,
            },
            match token {
                Some(t) => r is Ok && r->Ok_0@ == self.ws_url@ + "?token="@ + t@,
                None => r is Err && r->Err_0@ == ErrorModel::Auth(
                    "未注册，无法建立 WebSocket 连接"@,
                ),
            },
    {
        match token {
            Some(t) => {
                let a = concat(self.ws_url.as_str(), "?token=");
                Ok(concat(a.as_str(), t))
            },
            None => Err(SdkError::Auth("未注册，无法建立 WebSocket 连接".to_owned())),
        }
    }
}

proof fn lemma_filter_keeps_different(v: Seq<Seq<char>>, pred: spec_fn(Seq<char>) -> bool)
    requires
        all_different(v),
    ensures
        all_different(v.filter(pred)),
    decreases v.len(),
{
    reveal(Seq::filter);
    if v.len() > 0 {
        let d = v.drop_last();
        assert forall|i: int, j: int| 0 <= i < j < d.len() implies #[trigger] d[i]
            != #[trigger] d[j] by {
            assert(v[i] != v[j]);
        }
        lemma_filter_keeps_different(d, pred);
        let f = d.filter(pred);
        if pred(v.last()) {
            let g = f.push(v.last());
            assert forall|i: int, j: int| 0 <= i < j < g.len() implies #[trigger] g[i]
                != #[trigger] g[j] by {
                if j == f.len() {
                    assert(f.contains(f[i]));
                    d.lemma_filter_contains_rev(pred, f[i]);
                    let k = choose|k: int| 0 <= k < d.len() && d[k] == f[i];
                    assert(v[k] != v[v.len() - 1]);
                } else {
                    assert(f[i] != f[j]);
                }
            }
        }
    }
}

/// Wanting an event that was not wanted, and no longer wanting it, changes
/// nothing.
pub proof fn lemma_unsubscribe_undoes_subscribe(v: Seq<Seq<char>>, s: Seq<char>)
    requires
        !v.contains(s),
    ensures
        without_text(v.push(s), s) == v,
{
    reveal(Seq::filter);
    assert(v.push(s).drop_last() =~= v);
    assert(without_text(v.push(s), s) == without_text(v, s));
    lemma_filter_all(v, s);
}

proof fn lemma_filter_all(v: Seq<Seq<char>>, s: Seq<char>)
    requires
        !v.contains(s),
    ensures
        without_text(v, s) == v,
    decreases v.len(),
{
    reveal(Seq::filter);
    if v.len() > 0 {
        let d = v.drop_last();
        assert(!d.contains(s)) by {
            if d.contains(s) {
                let k = choose|k: int| 0 <= k < d.len() && d[k] == s;
                assert(v[k] == s);
            }
        }
        lemma_filter_all(d, s);
        assert(v[v.len() - 1] != s);
        assert(v =~= d.push(v.last()));
    }
}

/// What to do after a connection ended.
#[derive(Debug, Clone, Copy, PartialEq, Eq, Structural)]
pub enum WsStep {
    /// Nothing more.
    Stop,
    /// Wait for so long, then connect again.
    WaitThenConnect(Duration),
}

/// How long the next pause between two connections is.
#[derive(Debug, Clone, Copy)]
pub struct Reconnect {
    pub delay: Duration,
}

impl Reconnect {
    /// The first pause is one second.
    pub fn new() -> (r: Self)
        ensures
            r.delay@ == secs(1),
    {
        Reconnect { delay: Duration::from_secs(1) }
    }

    /// A connection ended, on purpose or by a failure. After a failure there is a
    /// pause, and the next one is twice as long, but no longer than 30 seconds.
    pub fn run(&mut self, failed: bool) -> (r: WsStep)
        ensures
            match run_step(old(self).delay@, failed) {
                Some(p) => r is WaitThenConnect && r->WaitThenConnect_0@ == p.0
                    && final(self).delay@ == p.1,
                None => r is Stop,
            },
            !failed ==> r is Stop && *final(self) == *old(self),
            failed ==> r == WsStep::WaitThenConnect(old(self).delay) && final(self).delay@
                == next_pause(old(self).delay@),
    {
        if !failed {
            return WsStep::Stop;
        }
        let pause = self.delay;
        self.delay = self.delay.doubled_up_to(&Duration::from_secs(30));
        WsStep::WaitThenConnect(pause)
    }
}

/// The pause that follows a pause: twice as long, but no longer than 30 seconds.
pub open spec fn next_pause(p: nat) -> nat {
    if 2 * p <= secs(30) {
        2 * p
    } else {
        secs(30)
    }
}

/// The pause before the `n`-th repetition of a connection, from zero.
pub open spec fn pause_before(n: nat) -> nat
    decreases n,
{
    if n == 0 {
        secs(1)
    } else {
        next_pause(pause_before((n - 1) as nat))
    }
}

/// The pauses begin with one second, never shrink, and never exceed 30 seconds.
pub proof fn lemma_reconnect_pauses(n: nat)
    ensures
        secs(1) <= pause_before(n) <= secs(30),
        pause_before(n) <= pause_before(n + 1),
    decreases n,
{
    if n > 0 {
        lemma_reconnect_pauses((n - 1) as nat);
    }
}

/// What happened on the connection.
#[derive(Debug, Clone, Copy, PartialEq, Eq, Structural)]
pub enum WsEvent {
    /// The component is shutting down.
    Shutdown,
    /// A sign of life is due.
    PingDue,
    /// A text came.
    Text,
    /// Bytes came that are a text.
    BinaryText,
    /// Bytes came that are no text.
    BinaryOther,
    /// The other side gave a sign of life.
    Pong,
    /// The other side wants a sign of life; it gets one by itself.
    Ping,
    /// A raw frame came.
    Frame,
    /// The other side closed the connection.
    Close,
    /// Reading failed.
    ReadError,
    /// The connection is at its end.
    Ended,
}

/// What to do on the connection.
#[derive(Debug, Clone, Copy, PartialEq, Eq, Structural)]
pub enum WsAction {
    /// Close the connection and leave it as ended on purpose.
    CloseAndStop,
    /// Send a sign of life; where that fails, leave the connection as failed.
    SendPing,
    /// Read the text as an event and hand it on.
    HandleText,
    /// Nothing.
    Ignore,
    /// Leave the connection as failed.
    Fail,
}

/// What to do after an event on the connection.
pub open spec fn ws_action(event: WsEvent) -> WsAction {
    match event {
        WsEvent::Shutdown => WsAction::CloseAndStop,
        WsEvent::PingDue => WsAction::SendPing,
        WsEvent::Text | WsEvent::BinaryText => WsAction::HandleText,
        WsEvent::BinaryOther | WsEvent::Pong | WsEvent::Ping | WsEvent::Frame => WsAction::Ignore,
        WsEvent::Close | WsEvent::ReadError | WsEvent::Ended => WsAction::Fail,
    }
}

/// What to do after an event on the connection.
pub fn connect_and_run(event: WsEvent) -> (r: WsAction)
    ensures
        r == ws_action(event),
{
    match event {
        WsEvent::Shutdown => WsAction::CloseAndStop,
        WsEvent::PingDue => WsAction::SendPing,
        WsEvent::Text => WsAction::HandleText,
        WsEvent::BinaryText => WsAction::HandleText,
        WsEvent::BinaryOther => WsAction::Ignore,
        WsEvent::Pong => WsAction::Ignore,
        WsEvent::Ping => WsAction::Ignore,
        WsEvent::Frame => WsAction::Ignore,
        WsEvent::Close => WsAction::Fail,
        WsEvent::ReadError => WsAction::Fail,
        WsEvent::Ended => WsAction::Fail,
    }
}

/// The error that a connection is left with.
pub fn failure_of(event: WsEvent, reason: &str) -> (r: SdkError)
    requires
        ws_action(event) is Fail || event is PingDue,
    ensures
        r@ == ErrorModel::WebSocket(failure_text(event, reason@)),
        r@ == ErrorModel::WebSocket(
            match event {
                WsEvent::PingDue => "发送 Ping 失败: "@ + reason@,
                WsEvent::Close => "服务端关闭连接"@,
                WsEvent::ReadError => "读取错误: "@ + reason@,
                _ => "连接已关闭"@,
            },
        ),
{
    match event {
        WsEvent::PingDue => SdkError::WebSocket(concat("发送 Ping 失败: ", reason)),
        WsEvent::Close => SdkError::WebSocket("服务端关闭连接".to_owned()),
        WsEvent::ReadError => SdkError::WebSocket(concat("读取错误: ", reason)),
        _ => SdkError::WebSocket("连接已关闭".to_owned()),
    }
}

/// A connection is only ever left on purpose when the component shuts down.
pub proof fn lemma_only_shutdown_stops(event: WsEvent)
    ensures
        ws_action(event) is CloseAndStop <==> event is Shutdown,
{
}

/// The texts with one that is among them at most once.
pub open spec fn with_text(v: Seq<Seq<char>>, s: Seq<char>) -> Seq<Seq<char>> {
    if v.contains(s) {
        v
    } else {
        v.push(s)
    }
}

/// The address of the socket with the token that opens it.
pub open spec fn url_with_token(ws_url: Seq<char>, token: Seq<char>) -> Seq<char> {
    ws_url + "?token="@ + token
}

/// What a failed connection says.
pub open spec fn failure_text(event: WsEvent, reason: Seq<char>) -> Seq<char> {
    match event {
        WsEvent::PingDue => "发送 Ping 失败: "@ + reason,
        WsEvent::Close => "服务端关闭连接"@,
        WsEvent::ReadError => "读取错误: "@ + reason,
        _ => "连接已关闭"@,
    }
}

/// To subscribe twice is to subscribe once; nothing else is touched, by this or by the
/// end of a subscription.
pub proof fn lemma_subscriptions(v: Seq<Seq<char>>, s: Seq<char>, t: Seq<char>)
    ensures
        with_text(v, s).contains(s),
        with_text(with_text(v, s), s) == with_text(v, s),
        v.is_prefix_of(with_text(v, s)),
        with_text(v, s).len() <= v.len() + 1,
        !without_text(v, s).contains(s),
        t != s ==> (without_text(v, s).contains(t) <==> v.contains(t)),
        t != s ==> (with_text(v, s).contains(t) <==> v.contains(t)),
{
    let w = v.push(s);
    assert(w[v.len() as int] == s);
    if v.contains(t) {
        let i = choose|i: int| 0 <= i < v.len() && v[i] == t;
        assert(w[i] == t);
    }
    let p = |x: Seq<char>| x != s;
    broadcast use vstd::seq_lib::group_filter_ensures;

    if without_text(v, s).contains(s) {
        let i = choose|i: int| 0 <= i < without_text(v, s).len() && without_text(v, s)[i] == s;
        assert(p(without_text(v, s)[i]));
    }
    if t != s && v.contains(t) {
        let i = choose|i: int| 0 <= i < v.len() && v[i] == t;
        assert(p(v[i]));
    }
    lemma_kept_texts_were_there(v, s, t);
}

proof fn lemma_kept_texts_were_there(v: Seq<Seq<char>>, s: Seq<char>, t: Seq<char>)
    ensures
        without_text(v, s).contains(t) ==> v.contains(t),
    decreases v.len(),
{
    reveal(Seq::filter);
    if v.len() > 0 {
        let d = v.drop_last();
        lemma_kept_texts_were_there(d, s, t);
        if without_text(v, s).contains(t) {
            let i = choose|i: int| 0 <= i < without_text(v, s).len() && without_text(v, s)[i] == t;
            if i < without_text(d, s).len() {
                assert(without_text(d, s)[i] == t);
                let j = choose|j: int| 0 <= j < d.len() && d[j] == t;
                assert(v[j] == t);
            } else {
                assert(v[v.len() - 1] == t);
            }
        }
    }
}

/// The token stands whole at the end of the address, behind its name.
pub proof fn lemma_token_in_the_address(ws_url: Seq<char>, token: Seq<char>)
    ensures
        url_with_token(ws_url, token) == ws_url + ("?token="@ + token),
        url_with_token(ws_url, token).len() == ws_url.len() + 7 + token.len(),
{
    reveal_strlit("?token=");
    assert(url_with_token(ws_url, token) =~= ws_url + ("?token="@ + token));
}

/// A lost connection is made again after one second, and each pause is twice the one
/// before it, up to half a minute.
pub proof fn lemma_pauses_in_seconds(n: nat)
    ensures
        pause_before(0) == 1_000_000_000,
        pause_before(1) == 2_000_000_000,
        pause_before(2) == 4_000_000_000,
        pause_before(3) == 8_000_000_000,
        pause_before(4) == 16_000_000_000,
        n >= 5 ==> pause_before(n) == 30_000_000_000,
    decreases n,
{
    reveal_with_fuel(pause_before, 7);
    if n > 5 {
        lemma_pauses_in_seconds((n - 1) as nat);
    }
}

/// The pause that follows another is twice as long, where that is no more than half a
/// minute, and half a minute otherwise.
pub proof fn lemma_next_pause(p: nat)
    ensures
        p <= 15_000_000_000 ==> next_pause(p) == p + p,
        p > 15_000_000_000 ==> next_pause(p) == 30_000_000_000,
{
}

/// Text is handled however it came, what the other side does to keep the connection is
/// passed over, and the end of the connection, in any form, is a failure.
pub proof fn lemma_what_events_lead_to(event: WsEvent)
    ensures
        ws_action(event) is HandleText <==> event is Text || event is BinaryText,
        ws_action(event) is SendPing <==> event is PingDue,
        ws_action(event) is Fail <==> event is Close || event is ReadError || event is Ended,
        ws_action(event) is Ignore <==> event is BinaryOther || event is Pong || event is Ping
            || event is Frame,
{
}

/// A failure to read or to ping says why; the others say what happened.
pub proof fn lemma_failure_texts(reason: Seq<char>)
    ensures
        failure_text(WsEvent::ReadError, reason) == "读取错误: "@ + reason,
        failure_text(WsEvent::PingDue, reason) == "发送 Ping 失败: "@ + reason,
        failure_text(WsEvent::Close, reason) == "服务端关闭连接"@,
        failure_text(WsEvent::Ended, reason) == "连接已关闭"@,
{
}

/// In a client that is in order no event is subscribed to twice.
pub proof fn lemma_no_subscription_twice(c: WsClient, i: int, j: int)
    requires
        c.wf(),
        0 <= i < j < c.subscriptions@.len(),
    ensures
        c.subscriptions@[i]@ != c.subscriptions@[j]@,
{
    assert(texts(c.subscriptions@)[i] == c.subscriptions@[i]@);
    assert(texts(c.subscriptions@)[j] == c.subscriptions@[j]@);
}

/// After a connection ended: the pause before the next, and the one after that; nothing
/// where it ended on purpose.
pub open spec fn run_step(delay: nat, failed: bool) -> Option<(nat, nat)> {
    if failed {
        Some((delay, next_pause(delay)))
    } else {
        None
    }
}

/// Only a failed connection is made again, after the pause that was due, and the next
/// pause is twice as long, up to half a minute.
pub proof fn lemma_run_steps(delay: nat)
    ensures
        run_step(delay, false) is None,
        run_step(delay, true) is Some,
        (run_step(delay, true)->0).0 == delay,
        delay <= 15_000_000_000 ==> (run_step(delay, true)->0).1 == 2 * delay,
        delay > 15_000_000_000 ==> (run_step(delay, true)->0).1 == 30_000_000_000,
{
}

} // verus!
