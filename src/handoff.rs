use vstd::prelude::*;

use axum::extract::ws::WebSocket;
use tokio::sync::oneshot::error::RecvError;
use tokio::sync::oneshot::{Receiver, Sender};

verus! {

/// An upgraded client connection; opaque to the logic, carried through.
#[verifier::external_type_specification]
#[verifier::external_body]
pub struct ExWebSocket(WebSocket);

/// Sending half of a single-use handoff channel.
#[verifier::external_type_specification]
#[verifier::external_body]
#[verifier::reject_recursive_types(T)]
pub struct ExSender<T>(Sender<T>);

/// Receiving half of a single-use handoff channel.
#[verifier::external_type_specification]
#[verifier::external_body]
#[verifier::reject_recursive_types(T)]
pub struct ExReceiver<T>(Receiver<T>);

/// Failure of a receive whose sender was dropped without sending.
#[verifier::external_type_specification]
#[verifier::external_body]
pub struct ExRecvError(RecvError);

/// Relies on tokio::sync::oneshot::channel: a fresh channel with one permit.
#[verifier::external_body]
pub(crate) fn handoff_channel() -> (r: (Sender<WebSocket>, Receiver<WebSocket>)) {
    tokio::sync::oneshot::channel()
}

/// Relies on tokio::sync::oneshot::Sender::send: when the receiver is gone
/// the value comes back unchanged in `Err`.
#[verifier::external_body]
fn send_connection(tx: Sender<WebSocket>, conn: WebSocket) -> (r: Result<(), WebSocket>)
    ensures
        r matches Err(back) ==> back == conn,
{
    tx.send(conn)
}

/// What became of a connection offered to a waiting initiator.
#[derive(Debug, Clone, Copy, PartialEq, Eq, Structural)]
pub enum Delivery {
    /// The initiator's side of the channel took the connection.
    Delivered,
    /// The initiator had already given up; the connection was dropped.
    Discarded,
}

/// Hands a responder's connection to the initiator that waits behind `tx`,
/// consuming the channel's single permit. Whether the initiator is still
/// there is decided elsewhere; when it is not, the connection is dropped and
/// nothing is retried.
pub fn hand_off(tx: Sender<WebSocket>, conn: WebSocket) -> (r: Delivery) {
    match send_connection(tx, conn) {
        Ok(()) => Delivery::Delivered,
        Err(_) => Delivery::Discarded,
    }
}

} // verus!
