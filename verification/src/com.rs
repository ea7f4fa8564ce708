//! Handles of the system's objects.
//!
//! Programs hold objects of the operating system by handle. A handle is a number
//! that is given out once; the registry maps it to the object and its kind.
//! Handles travel as fixnums, and zero is no handle.

use std::collections::HashMap;

use vstd::prelude::*;

use crate::word::{fixnum, in_fixnum_range, signed, Word, FIXNUM_MAX};

verus! {

// ----- numbers -----

/// The word of a number: its low 63 bits as a fixnum.
pub open spec fn tagged(n: u64) -> u64 {
    n << 1u64
}

/// The number that a word carries; zero for a word that is no fixnum.
pub open spec fn untagged_signed(w: u64) -> int {
    if w % 2 == 0 {
        signed(w) / 2
    } else {
        0
    }
}

/// The number that a word carries, negative ones in two's complement.
pub open spec fn untagged(w: u64) -> u64 {
    if untagged_signed(w) < 0 {
        (untagged_signed(w) + 0x1_0000_0000_0000_0000) as u64
    } else {
        untagged_signed(w) as u64
    }
}

/// The word of a number.
pub fn tag(n: u64) -> (w: u64)
    ensures
        w == tagged(n),
{
    Word::tagged(n).raw()
}

/// The number that a word carries.
pub fn untag(w: u64) -> (n: u64)
    ensures
        n == untagged(w),
{
    match Word::from_raw(w).as_fixnum() {
        Some(n) => if n < 0 {
            (n as i128 + 0x1_0000_0000_0000_0000i128) as u64
        } else {
            n as u64
        },
        None => 0,
    }
}

/// The signed number that a word carries.
pub fn untag_i64(w: u64) -> (n: i64)
    ensures
        n == untagged_signed(w),
{
    match Word::from_raw(w).as_fixnum() {
        Some(n) => n,
        None => 0,
    }
}

/// Tagging loses nothing of a number in the fixnum range.
pub proof fn tag_round_trip(n: u64)
    requires
        n <= FIXNUM_MAX,
    ensures
        untagged(tagged(n)) == n,
        untagged_signed(tagged(n)) == n,
{
    assert(n < 0x4000_0000_0000_0000u64 ==> (n << 1u64) == 2 * n) by (bit_vector);
}

/// The low 32 bits of a number.
pub open spec fn low_bits(n: u64) -> u32 {
    (n % 0x1_0000_0000) as u32
}

/// The low 32 bits of a number.
pub fn low_u32(n: u64) -> (r: u32)
    ensures
        r == low_bits(n),
{
    (n % 0x1_0000_0000) as u32
}

/// A 32-bit number in two's complement.
pub open spec fn signed32(n: u32) -> i32 {
    if n < 0x8000_0000 {
        n as i32
    } else {
        (n - 0x1_0000_0000) as i32
    }
}

/// A 32-bit number in two's complement.
pub fn to_signed32(n: u32) -> (r: i32)
    ensures
        r == signed32(n),
{
    if n < 0x8000_0000 {
        n as i32
    } else {
        (n as i64 - 0x1_0000_0000) as i32
    }
}

/// The bits of a signed 32-bit number.
pub open spec fn bits32(n: i32) -> u64 {
    if n < 0 {
        (n + 0x1_0000_0000) as u64
    } else {
        n as u64
    }
}

/// The bits of a signed 32-bit number.
pub fn to_bits32(n: i32) -> (r: u64)
    ensures
        r == bits32(n),
        r <= u32::MAX,
{
    if n < 0 {
        (n as i64 + 0x1_0000_0000) as u64
    } else {
        n as u64
    }
}

// ----- the registry -----

/// The kinds of object.
#[derive(Clone, Copy, PartialEq, Eq, Structural, Debug)]
pub enum ComKind {
    DxgiFactory,
    DxgiDevice,
    DxgiSurface,
    DxgiSwapChain,
    D3D11Device,
    D3D11DeviceContext,
    D3D11Texture2D,
    D2DFactory,
    D2DDevice,
    D2DDeviceContext,
    D2DBitmap,
    D2DSolidColorBrush,
    DWriteFactory,
    DWriteTextFormat,
    DWriteTextLayout,
}

/// An object with its kind.
pub struct ComObject<T> {
    pub kind: ComKind,
    pub object: T,
}

/// The registry of objects, and what the last calls left behind.
pub struct ComState<T> {
    objects: HashMap<u64, ComObject<T>>,
    next_handle: u64,
    last_hresult: u64,
    last_staging_handle: u64,
    last_mapped_row_pitch: u64,
}

/// What a `ComState` holds.
#[verifier::ext_equal]
pub struct ComView<T> {
    pub objects: Map<u64, ComObject<T>>,
    pub next_handle: u64,
    pub last_hresult: u64,
    pub last_staging_handle: u64,
    pub last_mapped_row_pitch: u64,
}

impl<T> View for ComState<T> {
    type V = ComView<T>;

    closed spec fn view(&self) -> ComView<T> {
        ComView {
            objects: self.objects@,
            next_handle: self.next_handle,
            last_hresult: self.last_hresult,
            last_staging_handle: self.last_staging_handle,
            last_mapped_row_pitch: self.last_mapped_row_pitch,
        }
    }
}

impl<T> ComView<T> {
    /// Every handle has been given out, and none is zero.
    pub open spec fn wf(self) -> bool {
        &&& self.next_handle >= 1
        &&& self.objects.dom().finite()
        &&& forall|h: u64| #[trigger]
            self.objects.contains_key(h) ==> 1 <= h < self.next_handle
    }

    /// There is a handle left to give out.
    pub open spec fn has_handle(self) -> bool {
        self.next_handle < u64::MAX
    }

    /// The object of a kind behind a handle word.
    pub open spec fn held(self, kind: ComKind, handle: u64) -> Option<T> {
        let h = untagged(handle);
        if h != 0 && self.objects.contains_key(h) && self.objects[h].kind == kind {
            Some(self.objects[h].object)
        } else {
            None
        }
    }

    /// The registry with one more object.
    pub open spec fn with_object(self, kind: ComKind, object: T) -> ComView<T> {
        ComView {
            objects: self.objects.insert(self.next_handle, ComObject { kind, object }),
            next_handle: (self.next_handle + 1) as u64,
            ..self
        }
    }

    /// The registry after a call failed.
    pub open spec fn with_hresult(self, code: i32) -> ComView<T> {
        ComView { last_hresult: bits32(code), ..self }
    }
}

impl<T> ComState<T> {
    /// No objects.
    pub fn new() -> (s: ComState<T>)
        ensures
            s@ == (ComView {
                objects: Map::<u64, ComObject<T>>::empty(),
                next_handle: 1,
                last_hresult: 0,
                last_staging_handle: 0,
                last_mapped_row_pitch: 0,
            }),
            s@.wf(),
    {
        ComState {
            objects: HashMap::new(),
            next_handle: 1,
            last_hresult: 0,
            last_staging_handle: 0,
            last_mapped_row_pitch: 0,
        }
    }

    fn get(&self, kind: ComKind, handle: u64) -> (object: Option<&T>)
        ensures
            object is Some <==> self@.held(kind, handle) is Some,
            object is Some ==> *object->0 == self@.held(kind, handle)->0,
    {
        let h = untag(handle);
        if h == 0 {
            return None;
        }
        match self.objects.get(&h) {
            Some(o) => if o.kind == kind {
                Some(&o.object)
            } else {
                None
            },
            None => None,
        }
    }

    /// Notes a staging texture and its row pitch.
    pub fn note_staging(&mut self, staging_handle: u64, row_pitch: u64)
        ensures
            final(self)@ == (ComView {
                last_staging_handle: staging_handle,
                last_mapped_row_pitch: row_pitch,
                ..old(self)@
            }),
    {
        self.last_staging_handle = staging_handle;
        self.last_mapped_row_pitch = row_pitch;
    }
}

/// Registers an object and answers its handle.
pub fn register<T>(state: &mut ComState<T>, kind: ComKind, object: T) -> (handle: u64)
    requires
        old(state)@.has_handle(),
    ensures
        handle == old(state)@.next_handle,
        final(state)@ == old(state)@.with_object(kind, object),
        old(state)@.wf() ==> final(state)@.wf(),
{
    let handle = state.next_handle;
    state.next_handle = handle + 1;
    state.objects.insert(handle, ComObject { kind, object });
    handle
}

/// Gives up an object. Answers whether the handle was known.
pub fn release<T>(state: &mut ComState<T>, handle: u64) -> (known: bool)
    ensures
        known == old(state)@.objects.contains_key(handle),
        final(state)@ == (ComView { objects: old(state)@.objects.remove(handle), ..old(state)@ }),
        old(state)@.wf() ==> final(state)@.wf(),
{
    let gone = state.objects.remove(&handle);
    assert(!old(state)@.objects.contains_key(handle) ==> old(state)@.objects.remove(handle)
        =~= old(state)@.objects);
    gone.is_some()
}

/// How many objects are registered.
pub fn registry_len<T>(state: &ComState<T>) -> (n: usize)
    ensures
        n == state@.objects.len(),
{
    state.objects.len()
}

/// Gives up every object. Handles given out before stay used.
pub fn _reset_registry_for_tests<T>(state: &mut ComState<T>)
    ensures
        final(state)@ == (ComView {
            objects: Map::<u64, ComObject<T>>::empty(),
            ..old(state)@
        }),
        old(state)@.wf() ==> final(state)@.wf(),
{
    state.objects.clear();
}

/// A handle is new when it is given out, finds its object, and finds nothing
/// once the object is given up.
pub proof fn handle_finds_its_object<T>(s: ComView<T>, kind: ComKind, object: T)
    requires
        s.wf(),
        s.next_handle <= FIXNUM_MAX,
    ensures
        !s.objects.contains_key(s.next_handle),
        s.with_object(kind, object).held(kind, tagged(s.next_handle)) == Some(object),
        s.with_object(kind, object).objects.len() == s.objects.len() + 1,
        s.with_object(kind, object).objects.remove(s.next_handle) == s.objects,
{
    tag_round_trip(s.next_handle);
    assert(s.with_object(kind, object).objects.remove(s.next_handle) =~= s.objects);
}

/// Registering leaves every object that was registered before behind its
/// handle.
pub proof fn registering_keeps_handles<T>(
    s: ComView<T>,
    kind: ComKind,
    object: T,
    other_kind: ComKind,
    handle: u64,
)
    requires
        s.wf(),
        s.held(other_kind, handle) is Some,
    ensures
        s.with_object(kind, object).held(other_kind, handle) == s.held(other_kind, handle),
{
}

// ----- typed access -----

/// The DXGI factory behind a handle.
pub fn get_dxgi_factory<T>(state: &ComState<T>, handle: u64) -> (object: Option<&T>)
    ensures
        object is Some <==> state@.held(ComKind::DxgiFactory, handle) is Some,
        object is Some ==> *object->0 == state@.held(ComKind::DxgiFactory, handle)->0,
{
    state.get(ComKind::DxgiFactory, handle)
}

/// The DXGI device behind a handle.
pub fn get_dxgi_device<T>(state: &ComState<T>, handle: u64) -> (object: Option<&T>)
    ensures
        object is Some <==> state@.held(ComKind::DxgiDevice, handle) is Some,
        object is Some ==> *object->0 == state@.held(ComKind::DxgiDevice, handle)->0,
{
    state.get(ComKind::DxgiDevice, handle)
}

/// The DXGI surface behind a handle.
pub fn get_dxgi_surface<T>(state: &ComState<T>, handle: u64) -> (object: Option<&T>)
    ensures
        object is Some <==> state@.held(ComKind::DxgiSurface, handle) is Some,
        object is Some ==> *object->0 == state@.held(ComKind::DxgiSurface, handle)->0,
{
    state.get(ComKind::DxgiSurface, handle)
}

/// The swap chain behind a handle.
pub fn get_dxgi_swap_chain<T>(state: &ComState<T>, handle: u64) -> (object: Option<&T>)
    ensures
        object is Some <==> state@.held(ComKind::DxgiSwapChain, handle) is Some,
        object is Some ==> *object->0 == state@.held(ComKind::DxgiSwapChain, handle)->0,
{
    state.get(ComKind::DxgiSwapChain, handle)
}

/// The D3D11 device behind a handle.
pub fn get_d3d11_device<T>(state: &ComState<T>, handle: u64) -> (object: Option<&T>)
    ensures
        object is Some <==> state@.held(ComKind::D3D11Device, handle) is Some,
        object is Some ==> *object->0 == state@.held(ComKind::D3D11Device, handle)->0,
{
    state.get(ComKind::D3D11Device, handle)
}

/// The D3D11 device context behind a handle.
pub fn get_d3d11_device_context<T>(state: &ComState<T>, handle: u64) -> (object: Option<&T>)
    ensures
        object is Some <==> state@.held(ComKind::D3D11DeviceContext, handle) is Some,
        object is Some ==> *object->0 == state@.held(ComKind::D3D11DeviceContext, handle)->0,
{
    state.get(ComKind::D3D11DeviceContext, handle)
}

/// The D3D11 texture behind a handle.
pub fn get_d3d11_texture_2d<T>(state: &ComState<T>, handle: u64) -> (object: Option<&T>)
    ensures
        object is Some <==> state@.held(ComKind::D3D11Texture2D, handle) is Some,
        object is Some ==> *object->0 == state@.held(ComKind::D3D11Texture2D, handle)->0,
{
    state.get(ComKind::D3D11Texture2D, handle)
}

/// The D2D factory behind a handle.
pub fn get_d2d_factory<T>(state: &ComState<T>, handle: u64) -> (object: Option<&T>)
    ensures
        object is Some <==> state@.held(ComKind::D2DFactory, handle) is Some,
        object is Some ==> *object->0 == state@.held(ComKind::D2DFactory, handle)->0,
{
    state.get(ComKind::D2DFactory, handle)
}

/// The D2D device behind a handle.
pub fn get_d2d_device<T>(state: &ComState<T>, handle: u64) -> (object: Option<&T>)
    ensures
        object is Some <==> state@.held(ComKind::D2DDevice, handle) is Some,
        object is Some ==> *object->0 == state@.held(ComKind::D2DDevice, handle)->0,
{
    state.get(ComKind::D2DDevice, handle)
}

/// The D2D device context behind a handle.
pub fn get_d2d_device_context<T>(state: &ComState<T>, handle: u64) -> (object: Option<&T>)
    ensures
        object is Some <==> state@.held(ComKind::D2DDeviceContext, handle) is Some,
        object is Some ==> *object->0 == state@.held(ComKind::D2DDeviceContext, handle)->0,
{
    state.get(ComKind::D2DDeviceContext, handle)
}

/// The D2D bitmap behind a handle.
pub fn get_d2d_bitmap<T>(state: &ComState<T>, handle: u64) -> (object: Option<&T>)
    ensures
        object is Some <==> state@.held(ComKind::D2DBitmap, handle) is Some,
        object is Some ==> *object->0 == state@.held(ComKind::D2DBitmap, handle)->0,
{
    state.get(ComKind::D2DBitmap, handle)
}

/// The D2D brush behind a handle.
pub fn get_d2d_solid_brush<T>(state: &ComState<T>, handle: u64) -> (object: Option<&T>)
    ensures
        object is Some <==> state@.held(ComKind::D2DSolidColorBrush, handle) is Some,
        object is Some ==> *object->0 == state@.held(ComKind::D2DSolidColorBrush, handle)->0,
{
    state.get(ComKind::D2DSolidColorBrush, handle)
}

/// The DirectWrite factory behind a handle.
pub fn get_dwrite_factory<T>(state: &ComState<T>, handle: u64) -> (object: Option<&T>)
    ensures
        object is Some <==> state@.held(ComKind::DWriteFactory, handle) is Some,
        object is Some ==> *object->0 == state@.held(ComKind::DWriteFactory, handle)->0,
{
    state.get(ComKind::DWriteFactory, handle)
}

/// The DirectWrite text format behind a handle.
pub fn get_dwrite_text_format<T>(state: &ComState<T>, handle: u64) -> (object: Option<&T>)
    ensures
        object is Some <==> state@.held(ComKind::DWriteTextFormat, handle) is Some,
        object is Some ==> *object->0 == state@.held(ComKind::DWriteTextFormat, handle)->0,
{
    state.get(ComKind::DWriteTextFormat, handle)
}

/// The DirectWrite text layout behind a handle.
pub fn get_dwrite_text_layout<T>(state: &ComState<T>, handle: u64) -> (object: Option<&T>)
    ensures
        object is Some <==> state@.held(ComKind::DWriteTextLayout, handle) is Some,
        object is Some ==> *object->0 == state@.held(ComKind::DWriteTextLayout, handle)->0,
{
    state.get(ComKind::DWriteTextLayout, handle)
}

// ----- failed calls -----

/// Remembers the code of a failed call.
pub fn store_last_hresult<T>(state: &mut ComState<T>, code: i32)
    ensures
        final(state)@ == old(state)@.with_hresult(code),
{
    state.last_hresult = to_bits32(code);
}

/// The value of a call that succeeded. The code of one that failed is
/// remembered.
pub fn hresult_to_zero<T, V>(state: &mut ComState<T>, outcome: Result<V, i32>) -> (value: Option<V>)
    ensures
        match outcome {
            Ok(v) => value == Some(v) && final(state)@ == old(state)@,
            Err(code) => value == None::<V> && final(state)@ == old(state)@.with_hresult(code),
        },
{
    match outcome {
        Ok(v) => Some(v),
        Err(code) => {
            store_last_hresult(state, code);
            None
        },
    }
}

/// The code of the last failed call, zero if none has failed since this function
/// or `nod_com_clear_last_hresult` was called last.
pub fn nod_com_last_hresult<T>(state: &mut ComState<T>) -> (code: u64)
    ensures
        code == tagged(old(state)@.last_hresult),
        final(state)@ == (ComView { last_hresult: 0, ..old(state)@ }),
{
    let code = tag(state.last_hresult);
    state.last_hresult = 0;
    code
}

/// Forgets the code of the last failed call.
pub fn nod_com_clear_last_hresult<T>(state: &mut ComState<T>) -> (r: u64)
    ensures
        r == 0,
        final(state)@ == (ComView { last_hresult: 0, ..old(state)@ }),
{
    state.last_hresult = 0;
    0
}

/// Gives up the object behind a handle word. Answers one if it was known, else
/// zero.
pub fn nod_com_release<T>(state: &mut ComState<T>, handle: u64) -> (r: u64)
    ensures
        ({
            let h = untagged(handle);
            if h != 0 && old(state)@.objects.contains_key(h) {
                r == tagged(1) && final(state)@ == (ComView {
                    objects: old(state)@.objects.remove(h),
                    ..old(state)@
                })
            } else {
                r == 0 && final(state)@ == old(state)@
            }
        }),
        old(state)@.wf() ==> final(state)@.wf(),
{
    let h = untag(handle);
    if h != 0 {
        proof {
            assert(!state@.objects.contains_key(h) ==> state@.objects.remove(h)
                =~= state@.objects);
        }
        if release(state, h) {
            return tag(1);
        }
    }
    0
}

/// How many objects are registered.
pub fn nod_com_registry_len<T>(state: &ComState<T>) -> (r: u64)
    ensures
        r == tagged(state@.objects.len() as u64),
{
    tag(registry_len(state) as u64)
}

/// What the last mapping left behind: the word of the staging texture's handle,
/// zero if the mapping failed.
pub fn nod_d3d11_last_staging_handle<T>(state: &ComState<T>) -> (r: u64)
    ensures
        r == state@.last_staging_handle,
{
    state.last_staging_handle
}

/// What the last mapping left behind: the word of the bytes per row, zero if the
/// mapping failed.
pub fn nod_d3d11_last_mapped_row_pitch<T>(state: &ComState<T>) -> (r: u64)
    ensures
        r == state@.last_mapped_row_pitch,
{
    state.last_mapped_row_pitch
}

// ----- what words and handles carry -----

/// Tagging doubles a number and drops what does not fit.
pub proof fn tagging_doubles(n: u64)
    ensures
        tagged(n) as int == (2 * n) % 0x1_0000_0000_0000_0000,
{
    assert((n << 1u64) as int == (2 * n) % 0x1_0000_0000_0000_0000) by (bit_vector);
}

/// A fixnum carries its number, in two's complement where the number is read
/// without a sign; any other word carries zero.
pub proof fn words_carry_their_number(n: int, w: u64)
    requires
        in_fixnum_range(n),
        w % 2 == 1,
    ensures
        untagged_signed(fixnum(n).raw) == n,
        untagged(fixnum(n).raw) as int == if n < 0 {
            n + 0x1_0000_0000_0000_0000
        } else {
            n
        },
        untagged_signed(w) == 0,
        untagged(w) == 0,
{
}

/// The low bits of a number are its remainder, and a signed number is its bits in
/// two's complement.
pub proof fn low_bits_are_the_remainder(n: u64, s: i32, u: u32)
    ensures
        low_bits(n) as int + 0x1_0000_0000 * (n as int / 0x1_0000_0000) == n,
        s >= 0 ==> bits32(s) == s,
        s < 0 ==> bits32(s) == s + 0x1_0000_0000,
        u <= 0x7fff_ffff ==> signed32(u) == u,
        u > 0x7fff_ffff ==> signed32(u) + 0x1_0000_0000 == u,
{
}

/// A handle word finds the object that is registered under its number, if that is
/// of the kind asked for. Zero finds nothing.
pub proof fn handles_find_objects_of_their_kind<T>(s: ComView<T>, kind: ComKind, n: int)
    requires
        0 <= n <= FIXNUM_MAX,
    ensures
        n > 0 && s.objects.contains_key(n as u64) && s.objects[n as u64].kind == kind ==> s.held(
            kind,
            fixnum(n).raw,
        ) == Some(s.objects[n as u64].object),
        n > 0 && s.objects.contains_key(n as u64) && s.objects[n as u64].kind != kind ==> s.held(
            kind,
            fixnum(n).raw,
        ) is None,
        n == 0 || !s.objects.contains_key(n as u64) ==> s.held(kind, fixnum(n).raw) is None,
{
}

/// A failed call leaves everything but the code as it was.
pub proof fn failures_are_remembered<T>(s: ComView<T>, code: i32)
    ensures
        s.with_hresult(code).last_hresult as int == if code < 0 {
            code + 0x1_0000_0000
        } else {
            code as int
        },
        s.with_hresult(code).objects == s.objects,
        s.with_hresult(code).next_handle == s.next_handle,
        s.with_hresult(code).last_staging_handle == s.last_staging_handle,
        s.with_hresult(code).last_mapped_row_pitch == s.last_mapped_row_pitch,
{
}

/// A new object is kept with its kind under the handle that was next, and leaves
/// everything else as it was.
pub proof fn new_objects_take_the_next_handle<T>(s: ComView<T>, kind: ComKind, object: T, h: u64)
    requires
        s.next_handle < u64::MAX,
    ensures
        ({
            let u = s.with_object(kind, object);
            &&& u.objects.contains_key(s.next_handle)
            &&& u.objects[s.next_handle].kind == kind
            &&& u.objects[s.next_handle].object == object
            &&& u.next_handle == s.next_handle + 1
            &&& h != s.next_handle ==> (u.objects.contains_key(h) <==> s.objects.contains_key(h))
            &&& h != s.next_handle && s.objects.contains_key(h) ==> u.objects[h] == s.objects[h]
            &&& u.last_hresult == s.last_hresult
            &&& u.last_staging_handle == s.last_staging_handle
            &&& u.last_mapped_row_pitch == s.last_mapped_row_pitch
        }),
{
}

} // verus!
