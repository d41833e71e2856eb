//! Creating a TAP device: requests on the TUN control device, not on a netlink connection.

use vstd::prelude::*;

use crate::error::{Context, ContextView, Error, ErrorView};

verus! {

/// How many bytes an interface request has for a name, with the zero byte at its end.
pub const IFNAMSIZ: usize = 16;

/// The request that makes a device of an open control device.
pub const TUNSETIFF: u32 = 0x4004_54ca;

/// The request that lets the device stay.
pub const TUNSETPERSIST: u32 = 0x4004_54cb;

/// The device carries Ethernet frames.
pub const IFF_TAP: i16 = 0x0002;

/// Frames come without a packet information header.
pub const IFF_NO_PI: i16 = 0x1000;

/// Frames come with a virtio net header.
pub const IFF_VNET_HDR: i16 = 0x4000;

/// An interface request.
#[derive(Debug, Clone, Copy, PartialEq, Eq)]
pub struct Ifreq {
    pub name: [u8; 16],
    pub flags: i16,
}

/// An [`Ifreq`] with its name as a sequence.
#[verifier::ext_equal]
pub struct IfreqView {
    pub name: Seq<u8>,
    pub flags: i16,
}

impl View for Ifreq {
    type V = IfreqView;

    open spec fn view(&self) -> IfreqView {
        IfreqView { name: self.name@, flags: self.flags }
    }
}

/// The name of the device to create, once the control device is open.
#[derive(Debug, PartialEq, Eq)]
pub struct TapName {
    name: String,
}

impl View for TapName {
    type V = Seq<char>;

    closed spec fn view(&self) -> Seq<char> {
        self.name@
    }
}

impl TapName {
    /// The name leaves room for the zero byte.
    #[verifier::type_invariant]
    spec fn fits(self) -> bool {
        name_bytes(self.name@).len() < IFNAMSIZ
    }
}

/// What to do next, or the end.
#[derive(Debug, PartialEq, Eq)]
pub enum TapAction {
    /// Open the control device for reading and writing.
    Open(TapName),
    /// Request a device.
    SetIff(Ifreq),
    /// Let the device stay.
    SetPersist,
    /// Nothing: the operation is finished.
    Finish(Result<(), Error>),
}

/// A [`TapAction`] with its texts and bytes as sequences.
pub enum TapActionView {
    Open(Seq<char>),
    SetIff(IfreqView),
    SetPersist,
    Finish(Result<(), ErrorView>),
}

impl View for TapAction {
    type V = TapActionView;

    open spec fn view(&self) -> TapActionView {
        match *self {
            TapAction::Open(n) => TapActionView::Open(n@),
            TapAction::SetIff(request) => TapActionView::SetIff(request@),
            TapAction::SetPersist => TapActionView::SetPersist,
            TapAction::Finish(Ok(_)) => TapActionView::Finish(Ok(())),
            TapAction::Finish(Err(e)) => TapActionView::Finish(Err(e@)),
        }
    }
}

/// The bytes of a name.
pub open spec fn name_bytes(name: Seq<char>) -> Seq<u8> {
    vstd::utf8::encode_utf8(name)
}

/// The request for a device with this name: the name with zero bytes after it, and the flags of
/// a TAP device with a virtio net header and no packet information.
pub open spec fn tap_request(bytes: Seq<u8>) -> IfreqView {
    IfreqView {
        name: Seq::new(
            16,
            |i: int|
                if i < bytes.len() {
                    bytes[i]
                } else {
                    0
                },
        ),
        flags: 0x5002,
    }
}

/// How to begin: a name that leaves no room for the zero byte is refused.
pub open spec fn tap_start(name: Seq<char>) -> TapActionView {
    if name_bytes(name).len() >= IFNAMSIZ {
        TapActionView::Finish(Err(ErrorView::TapNameTooLong(name)))
    } else {
        TapActionView::Open(name)
    }
}

/// Whether the first zero byte stands at `i`.
pub open spec fn is_first_zero(bytes: Seq<u8>, i: int) -> bool {
    &&& 0 <= i < bytes.len()
    &&& bytes[i] == 0
    &&& forall|j: int| 0 <= j < i ==> bytes[j] != 0
}

/// What follows once the control device was to be opened: a name with a zero byte in it is
/// refused.
pub open spec fn tap_opened(name: Seq<char>, opened: Result<(), String>) -> TapActionView {
    let bytes = name_bytes(name);
    match opened {
        Err(text) => TapActionView::Finish(Err(ErrorView::Failed(ContextView::OpenTun, text@))),
        Ok(_) => if bytes.contains(0) {
            let at = choose|i: int| is_first_zero(bytes, i);
            TapActionView::Finish(Err(ErrorView::NulByte(at as nat)))
        } else {
            TapActionView::SetIff(tap_request(bytes))
        },
    }
}

/// What follows once the device was requested.
pub open spec fn tap_made(made: Result<(), String>) -> TapActionView {
    match made {
        Err(text) => TapActionView::Finish(Err(ErrorView::Failed(ContextView::TunSetIff, text@))),
        Ok(_) => TapActionView::SetPersist,
    }
}

/// What follows once the device was to be let stay.
pub open spec fn tap_kept(kept: Result<(), String>) -> TapActionView {
    match kept {
        Err(text) => TapActionView::Finish(
            Err(ErrorView::Failed(ContextView::TunSetPersist, text@)),
        ),
        Ok(_) => TapActionView::Finish(Ok(())),
    }
}

/// Creates a persistent TAP device with a virtio net header.
pub fn add_tap(name: &str) -> (action: TapAction)
    ensures
        action@ == tap_start(name@),
{
    if name.as_bytes().len() >= IFNAMSIZ {
        return TapAction::Finish(Err(Error::TapNameTooLong(name.to_owned())));
    }
    TapAction::Open(TapName { name: name.to_owned() })
}

/// Where the first zero byte stands.
fn find_zero(bytes: &[u8]) -> (r: Option<usize>)
    ensures
        r matches Some(i) ==> is_first_zero(bytes@, i as int) && bytes@.contains(0),
        r is None ==> !bytes@.contains(0),
{
    let mut i: usize = 0;
    while i < bytes.len()
        invariant
            i <= bytes.len(),
            forall|j: int| 0 <= j < i ==> bytes@[j] != 0,
        decreases bytes.len() - i,
    {
        if bytes[i] == 0 {
            assert(bytes@.contains(bytes@[i as int]));
            return Some(i);
        }
        i = i + 1;
    }
    None
}

/// The request for a device with this name.
fn request_for(bytes: &[u8]) -> (request: Ifreq)
    requires
        bytes@.len() < IFNAMSIZ,
    ensures
        request@ == tap_request(bytes@),
{
    let mut name: [u8; 16] = [0u8; 16];
    let mut i: usize = 0;
    while i < bytes.len()
        invariant
            i <= bytes.len() < 16,
            name@.len() == 16,
            forall|j: int| 0 <= j < i ==> name@[j] == bytes@[j],
            forall|j: int| i <= j < 16 ==> name@[j] == 0,
        decreases bytes.len() - i,
    {
        name[i] = bytes[i];
        i = i + 1;
    }
    let flags: i16 = IFF_TAP | IFF_NO_PI | IFF_VNET_HDR;
    assert(0x0002i16 | 0x1000i16 | 0x4000i16 == 0x5002i16) by (bit_vector);
    let request = Ifreq { name, flags };
    assert(request@.name =~= tap_request(bytes@).name);
    request
}

impl TapName {
    /// Goes on once the control device was to be opened.
    pub fn resume(self, opened: Result<(), String>) -> (action: TapAction)
        ensures
            action@ == tap_opened(self@, opened),
    {
        proof {
            use_type_invariant(&self);
        }
        if let Err(text) = opened {
            return TapAction::Finish(Err(Error::Failed(Context::OpenTun, text)));
        }
        let bytes = self.name.as_str().as_bytes();
        match find_zero(bytes) {
            Some(at) => {
                proof {
                    let chosen = choose|i: int| is_first_zero(bytes@, i);
                    assert(chosen == at);
                }
                TapAction::Finish(Err(Error::NulByte(at)))
            },
            None => TapAction::SetIff(request_for(bytes)),
        }
    }
}

/// Goes on once the device was requested.
pub fn resume_set_iff(made: Result<(), String>) -> (action: TapAction)
    ensures
        action@ == tap_made(made),
{
    match made {
        Err(text) => TapAction::Finish(Err(Error::Failed(Context::TunSetIff, text))),
        Ok(_) => TapAction::SetPersist,
    }
}

/// Goes on once the device was to be let stay.
pub fn resume_set_persist(kept: Result<(), String>) -> (action: TapAction)
    ensures
        action@ == tap_kept(kept),
{
    match kept {
        Err(text) => TapAction::Finish(Err(Error::Failed(Context::TunSetPersist, text))),
        Ok(_) => TapAction::Finish(Ok(())),
    }
}

/// A name is accepted if and only if its bytes leave room for a zero byte among sixteen. Once
/// the control device is open, a name with a zero byte in it, first at `at`, is refused, and any
/// other is requested: its bytes, then zero bytes, with the flags of a TAP device, of no packet
/// information and of a virtio net header. Each failure ends the operation and says what was
/// being done.
pub proof fn law_tap(name: Seq<char>, at: int, i: int, text: String)
    ensures
        vstd::utf8::encode_utf8(name).len() >= 16 ==> tap_start(name) == TapActionView::Finish(
            Err(ErrorView::TapNameTooLong(name)),
        ),
        vstd::utf8::encode_utf8(name).len() < 16 ==> tap_start(name) == TapActionView::Open(name),
        tap_opened(name, Err(text)) == TapActionView::Finish(
            Err(ErrorView::Failed(ContextView::OpenTun, text@)),
        ),
        0 <= at < vstd::utf8::encode_utf8(name).len() && vstd::utf8::encode_utf8(name)[at] == 0 && (
        forall|j: int|
            0 <= j < at ==> #[trigger] vstd::utf8::encode_utf8(name)[j] != 0) ==> tap_opened(
            name,
            Ok(()),
        ) == TapActionView::Finish(Err(ErrorView::NulByte(at as nat))),
        (forall|j: int|
            0 <= j < vstd::utf8::encode_utf8(name).len() ==> #[trigger] vstd::utf8::encode_utf8(
                name,
            )[j] != 0) ==> (tap_opened(name, Ok(())) matches TapActionView::SetIff(request) && {
            &&& request.flags == 0x0002 + 0x1000 + 0x4000
            &&& request.name.len() == 16
            &&& 0 <= i < 16 && i < vstd::utf8::encode_utf8(name).len() ==> request.name[i]
                == vstd::utf8::encode_utf8(name)[i]
            &&& 0 <= i < 16 && i >= vstd::utf8::encode_utf8(name).len() ==> request.name[i] == 0
        }),
        tap_made(Ok(())) == TapActionView::SetPersist,
        tap_made(Err(text)) == TapActionView::Finish(
            Err(ErrorView::Failed(ContextView::TunSetIff, text@)),
        ),
        tap_kept(Ok(())) == TapActionView::Finish(Ok(())),
        tap_kept(Err(text)) == TapActionView::Finish(
            Err(ErrorView::Failed(ContextView::TunSetPersist, text@)),
        ),
{
    let bytes = name_bytes(name);
    if 0 <= at < bytes.len() && bytes[at] == 0 && (forall|j: int|
        0 <= j < at ==> #[trigger] bytes[j] != 0) {
        assert(is_first_zero(bytes, at));
        assert(bytes.contains(bytes[at]));
        let chosen = choose|j: int| is_first_zero(bytes, j);
        assert(chosen == at);
    }
}

/// A name that is accepted is requested as it is, with a zero byte after it.
pub proof fn law_tap_name(name: Seq<char>)
    requires
        tap_start(name) == TapActionView::Open(name),
        !name_bytes(name).contains(0),
    ensures
        tap_opened(name, Ok(())) == TapActionView::SetIff(tap_request(name_bytes(name))),
        tap_request(name_bytes(name)).name.take(name_bytes(name).len() as int) == name_bytes(name),
        is_first_zero(tap_request(name_bytes(name)).name, name_bytes(name).len() as int),
{
    let bytes = name_bytes(name);
    assert(tap_request(bytes).name.take(bytes.len() as int) =~= bytes);
    assert forall|j: int| 0 <= j < bytes.len() implies tap_request(bytes).name[j] != 0 by {
        assert(bytes.contains(bytes[j]));
    }
}

/// A TAP device is reported as created only once it has been let stay.
pub proof fn law_tap_is_persistent(
    name: Seq<char>,
    opened: Result<(), String>,
    made: Result<(), String>,
    kept: Result<(), String>,
)
    ensures
        tap_start(name) != TapActionView::Finish(Ok(())),
        tap_opened(name, opened) != TapActionView::Finish(Ok(())),
        tap_made(made) != TapActionView::Finish(Ok(())),
        tap_kept(kept) == TapActionView::Finish(Ok(())) <==> kept is Ok,
{
}

} // verus!
