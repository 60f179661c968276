//! The worker's request handling: the replies owed to each inbound
//! message.  The surrounding read/write loop is run unverified against
//! the decoder and the codecs; the decision of what to answer is fixed
//! here.

use vstd::prelude::*;

use crate::api::{
    sample_package_0, sample_package_1, sample_package_2, Package, RecvyMessage, RecvyShape,
    SendyMessage,
};
use crate::json::int_digits;
use crate::text::chars_to_string;

verus! {

/// The replies the worker owes for one inbound message: an acknowledgement
/// string for a value, the three sample packages for a listing request, or
/// the worker's user identity.
pub open spec fn handle_message_spec(m: SendyMessage, uid: u32) -> Seq<RecvyShape> {
    match m {
        SendyMessage::DoThings(i) => seq![
            RecvyShape::GotThings("I got your message: "@ + int_digits(i as int)),
        ],
        SendyMessage::ListThePackages => seq![
            RecvyShape::HereIsOnePackage(sample_package_0()),
            RecvyShape::HereIsOnePackage(sample_package_1()),
            RecvyShape::HereIsOnePackage(sample_package_2()),
        ],
        SendyMessage::WhatsYourUID => seq![RecvyShape::HereIsYourUID(uid)],
    }
}

/// Computes the worker's replies to one inbound message.  `uid` is the
/// worker's user identity, handed in by the unverified runner.
pub fn handle_message(m: &SendyMessage, uid: u32) -> (r: Vec<RecvyMessage>)
    ensures
        r@.len() == handle_message_spec(*m, uid).len(),
        forall|k: int| 0 <= k < r@.len() ==> r@[k]@ == handle_message_spec(*m, uid)[k],
{
    match m {
        SendyMessage::DoThings(i) => {
            let mut text: Vec<char> = Vec::new();
            crate::text::push_chars(&mut text, "I got your message: ");
            crate::json::push_int_i8(&mut text, *i);
            let reply = RecvyMessage::GotThings(chars_to_string(&text));
            let mut out: Vec<RecvyMessage> = Vec::new();
            out.push(reply);
            proof {
                assert(Seq::<char>::empty() + "I got your message: "@ =~= "I got your message: "@);
            }
            out
        },
        SendyMessage::ListThePackages => {
            let mut packages = Package::get_sample_packages();
            let p0 = packages.remove(0);
            let p1 = packages.remove(0);
            let p2 = packages.remove(0);
            let mut out: Vec<RecvyMessage> = Vec::new();
            out.push(RecvyMessage::HereIsOnePackage(p0));
            out.push(RecvyMessage::HereIsOnePackage(p1));
            out.push(RecvyMessage::HereIsOnePackage(p2));
            out
        },
        SendyMessage::WhatsYourUID => {
            let mut out: Vec<RecvyMessage> = Vec::new();
            out.push(RecvyMessage::HereIsYourUID(uid));
            out
        },
    }
}

} // verus!
