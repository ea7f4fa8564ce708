//! Graphics.
//!
//! Each entry point looks up the objects behind its handles, decodes its number
//! arguments, makes one call of the system's graphics library and registers or
//! reports what came back. The call itself is handed in. A call that creates
//! answers the handle word of the new object, or zero with the failure code
//! remembered.

use vstd::prelude::*;

use crate::com::{
    bits32, get_d2d_bitmap, get_d2d_device, get_d2d_device_context, get_d2d_factory,
    get_d2d_solid_brush, get_d3d11_device, get_d3d11_device_context, get_d3d11_texture_2d,
    get_dwrite_factory, get_dwrite_text_format, get_dwrite_text_layout, get_dxgi_device,
    get_dxgi_factory, get_dxgi_surface, get_dxgi_swap_chain, handle_finds_its_object,
    hresult_to_zero, low_bits, low_u32, new_objects_take_the_next_handle, register, signed32,
    store_last_hresult, tag, tagged, tagging_doubles, to_bits32, to_signed32, untag, untag_i64,
    untagged, untagged_signed, words_carry_their_number, ComKind, ComState, ComView,
};
use crate::generics::held_text;
use crate::heap::Heap;
use crate::utf16::{
    utf16_from_dylan_byte_string, utf16_from_dylan_byte_string_no_null, utf16_units,
};
use crate::word::{fixnum, in_fixnum_range, Word, FIXNUM_MAX};

verus! {

// ----- outcomes -----

/// What a creating call comes to.
pub open spec fn created<T>(
    before: ComView<T>,
    after: ComView<T>,
    kind: ComKind,
    outcome: Result<T, i32>,
    answer: u64,
) -> bool {
    match outcome {
        Ok(object) => answer == tagged(before.next_handle) && after == before.with_object(
            kind,
            object,
        ),
        Err(code) => answer == 0 && after == before.with_hresult(code),
    }
}

/// What a creating call comes to that may succeed without an object.
pub open spec fn created_if_any<T>(
    before: ComView<T>,
    after: ComView<T>,
    kind: ComKind,
    outcome: Result<Option<T>, i32>,
    answer: u64,
) -> bool {
    match outcome {
        Ok(Some(object)) => created(before, after, kind, Ok(object), answer),
        Ok(None) => answer == 0 && after == before,
        Err(code) => created(before, after, kind, Err(code), answer),
    }
}

/// What a call comes to that answers its status: zero, or the failure code.
pub open spec fn reported<T>(
    before: ComView<T>,
    after: ComView<T>,
    outcome: Result<(), i32>,
    answer: u64,
) -> bool {
    match outcome {
        Ok(_) => answer == 0 && after == before,
        Err(code) => answer == tagged(bits32(code)) && after == before.with_hresult(code),
    }
}

/// Registers what a call created, or remembers why it failed.
pub fn finish_create<T>(state: &mut ComState<T>, kind: ComKind, outcome: Result<T, i32>) -> (answer:
    u64)
    requires
        old(state)@.has_handle(),
    ensures
        created(old(state)@, final(state)@, kind, outcome, answer),
        old(state)@.wf() ==> final(state)@.wf(),
{
    match hresult_to_zero(state, outcome) {
        Some(object) => tag(register(state, kind, object)),
        None => 0,
    }
}

/// Answers the status of a call.
pub fn finish_status<T>(state: &mut ComState<T>, outcome: Result<(), i32>) -> (answer: u64)
    ensures
        reported(old(state)@, final(state)@, outcome, answer),
        old(state)@.wf() ==> final(state)@.wf(),
{
    match outcome {
        Ok(_) => 0,
        Err(code) => {
            store_last_hresult(state, code);
            tag(to_bits32(code))
        },
    }
}

// ----- descriptions -----

/// The pixel format of all surfaces: eight bits each of blue, green, red and
/// alpha.
pub const FORMAT_BGRA: i32 = 87;

/// What a missing object answers where zero means success.
pub const NO_OBJECT: u64 = 0xffff_ffff;

/// How a texture is used.
#[derive(Clone, Copy, PartialEq, Eq, Structural, Debug)]
pub enum TextureUsage {
    /// As target and source of drawing.
    Draw,
    /// As a copy that the processor can read.
    Staging,
}

/// A texture to make.
#[derive(Clone, Copy, PartialEq, Eq, Structural, Debug)]
pub struct TextureDesc {
    pub width: u32,
    pub height: u32,
    pub format: i32,
    pub usage: TextureUsage,
}

/// How alpha is treated.
#[derive(Clone, Copy, PartialEq, Eq, Structural, Debug)]
pub enum AlphaMode {
    Ignore,
    Premultiplied,
}

/// A swap chain to make.
#[derive(Clone, Copy, PartialEq, Eq, Structural, Debug)]
pub struct SwapChainDesc {
    pub hwnd: i64,
    pub width: u32,
    pub height: u32,
    pub format: i32,
    pub buffer_count: u32,
    pub alpha_mode: AlphaMode,
}

/// A bitmap to draw to.
#[derive(Clone, Copy, PartialEq, Eq, Structural, Debug)]
pub struct BitmapDesc {
    pub format: i32,
    pub alpha_mode: AlphaMode,
    pub dots_per_inch: u32,
}

/// A bitmap that can be drawn to.
pub open spec fn target_bitmap(alpha_mode: AlphaMode) -> BitmapDesc {
    BitmapDesc { format: FORMAT_BGRA, alpha_mode, dots_per_inch: 96 }
}

/// A colour, in channels from 0 to 255.
#[derive(Clone, Copy, PartialEq, Eq, Structural, Debug)]
pub struct Color {
    pub r: u8,
    pub g: u8,
    pub b: u8,
    pub a: u8,
}

/// The low eight bits of the number in a word.
pub open spec fn channel(w: u64) -> u8 {
    (untagged(w) % 256) as u8
}

fn channel_of(w: u64) -> (c: u8)
    ensures
        c == channel(w),
{
    (untag(w) % 256) as u8
}

/// The colour that four words give.
pub open spec fn color_of(r: u64, g: u64, b: u64, a: u64) -> Color {
    Color { r: channel(r), g: channel(g), b: channel(b), a: channel(a) }
}

fn decode_color(r: u64, g: u64, b: u64, a: u64) -> (c: Color)
    ensures
        c == color_of(r, g, b, a),
{
    Color { r: channel_of(r), g: channel_of(g), b: channel_of(b), a: channel_of(a) }
}

/// A rectangle in pixels.
#[derive(Clone, Copy, PartialEq, Eq, Structural, Debug)]
pub struct Rect {
    pub left: i64,
    pub top: i64,
    pub right: i64,
    pub bottom: i64,
}

/// The rectangle that four words give.
pub open spec fn rect_of(left: u64, top: u64, right: u64, bottom: u64) -> Rect {
    Rect {
        left: untagged_signed(left) as i64,
        top: untagged_signed(top) as i64,
        right: untagged_signed(right) as i64,
        bottom: untagged_signed(bottom) as i64,
    }
}

fn decode_rect(left: u64, top: u64, right: u64, bottom: u64) -> (r: Rect)
    ensures
        r == rect_of(left, top, right, bottom),
{
    Rect {
        left: untag_i64(left),
        top: untag_i64(top),
        right: untag_i64(right),
        bottom: untag_i64(bottom),
    }
}

/// The signed number that a word carries.
pub open spec fn number_of(w: u64) -> i64 {
    untagged_signed(w) as i64
}

/// Whether a word carries a number other than zero.
pub open spec fn says_yes(w: u64) -> bool {
    untagged(w) != 0
}

/// Two numbers below 2^32 in one: `high` above `low`.
pub open spec fn packed(low: u32, high: u32) -> u64 {
    (high * 0x1_0000_0000 + low) as u64
}

fn pack(low: u32, high: u32) -> (n: u64)
    ensures
        n == packed(low, high),
{
    high as u64 * 0x1_0000_0000 + low as u64
}

// ----- devices -----

/// Makes a DXGI factory.
pub fn nod_dxgi_create_factory<T, F: Fn() -> Result<T, i32>>(
    state: &mut ComState<T>,
    call: F,
) -> (answer: u64)
    requires
        old(state)@.wf(),
        old(state)@.has_handle(),
        call.requires(()),
    ensures
        final(state)@.wf(),
        exists|outcome: Result<T, i32>| #[trigger]
            call.ensures((), outcome)
                && created(old(state)@, final(state)@, ComKind::DxgiFactory, outcome, answer),
{
    let outcome = call();
    finish_create(state, ComKind::DxgiFactory, outcome)
}

/// The drivers to try, in order.
#[derive(Clone, Copy, PartialEq, Eq, Structural, Debug)]
pub enum Driver {
    Hardware,
    Software,
}

/// What one try for a device comes to, when it is not the device itself.
pub open spec fn after_try<T>(s: ComView<T>, outcome: Result<Option<T>, i32>) -> ComView<T> {
    match outcome {
        Ok(_) => s,
        Err(code) => s.with_hresult(code),
    }
}

/// Makes a D3D11 device: the hardware driver first, else the software one.
pub fn nod_d3d11_create_device<T, F: Fn(Driver) -> Result<Option<T>, i32>>(
    state: &mut ComState<T>,
    call: F,
) -> (answer: u64)
    requires
        old(state)@.wf(),
        old(state)@.has_handle(),
        forall|d: Driver| call.requires((d,)),
    ensures
        final(state)@.wf(),
        exists|first: Result<Option<T>, i32>| #[trigger]
            call.ensures((Driver::Hardware,), first) && match first {
                Ok(Some(device)) => created(
                    old(state)@,
                    final(state)@,
                    ComKind::D3D11Device,
                    Ok(device),
                    answer,
                ),
                _ => exists|second: Result<Option<T>, i32>| #[trigger]
                    call.ensures((Driver::Software,), second) && created_if_any(
                        after_try(old(state)@, first),
                        final(state)@,
                        ComKind::D3D11Device,
                        second,
                        answer,
                    ),
            },
{
    let first = call(Driver::Hardware);
    match first {
        Ok(Some(device)) => {
            return finish_create(state, ComKind::D3D11Device, Ok(device));
        },
        Ok(None) => {},
        Err(code) => {
            store_last_hresult(state, code);
        },
    }
    match call(Driver::Software) {
        Ok(Some(device)) => finish_create(state, ComKind::D3D11Device, Ok(device)),
        Ok(None) => 0,
        Err(code) => finish_create(state, ComKind::D3D11Device, Err(code)),
    }
}

/// The immediate context of a device.
pub fn nod_d3d11_get_immediate_context<T, F: Fn(&T) -> Result<T, i32>>(
    state: &mut ComState<T>,
    call: F,
    device_handle: u64,
) -> (answer: u64)
    requires
        old(state)@.wf(),
        old(state)@.has_handle(),
        forall|o0: &T| call.requires((o0,)),
    ensures
        final(state)@.wf(),
        match old(state)@.held(ComKind::D3D11Device, device_handle) {
            None => answer == 0 && final(state)@ == old(state)@,
            Some(device) => exists|outcome: Result<T, i32>| #[trigger]
                call.ensures((&device,), outcome)
                    && created(
                        old(state)@,
                        final(state)@,
                        ComKind::D3D11DeviceContext,
                        outcome,
                        answer,
                    ),
        },
{
    let device = match get_d3d11_device(state, device_handle) {
        Some(object) => object,
        None => return 0,
    };
    let outcome = call(device);
    finish_create(state, ComKind::D3D11DeviceContext, outcome)
}

/// The texture that the words ask for.
pub open spec fn texture_of(width: u64, height: u64, format: u64) -> TextureDesc {
    TextureDesc {
        width: low_bits(untagged(width)),
        height: low_bits(untagged(height)),
        format: signed32(low_bits(untagged(format))),
        usage: TextureUsage::Draw,
    }
}

/// Makes a texture that can be drawn to.
pub fn nod_d3d11_create_texture_2d<T, F: Fn(&T, TextureDesc) -> Result<Option<T>, i32>>(
    state: &mut ComState<T>,
    call: F,
    device_handle: u64,
    width: u64,
    height: u64,
    format: u64,
) -> (answer: u64)
    requires
        old(state)@.wf(),
        old(state)@.has_handle(),
        forall|o0: &T, a0: TextureDesc| call.requires((o0, a0)),
    ensures
        final(state)@.wf(),
        match old(state)@.held(ComKind::D3D11Device, device_handle) {
            None => answer == 0 && final(state)@ == old(state)@,
            Some(device) => exists|outcome: Result<Option<T>, i32>| #[trigger]
                call.ensures((&device, texture_of(width, height, format)), outcome)
                    && created_if_any(
                    old(state)@,
                    final(state)@,
                    ComKind::D3D11Texture2D,
                    outcome,
                    answer,
                ),
        },
{
    let device = match get_d3d11_device(state, device_handle) {
        Some(object) => object,
        None => return 0,
    };
    match call(
        device,
        TextureDesc {
            width: low_u32(untag(width)),
            height: low_u32(untag(height)),
            format: to_signed32(low_u32(untag(format))),
            usage: TextureUsage::Draw,
        },
    ) {
        Ok(Some(object)) => finish_create(state, ComKind::D3D11Texture2D, Ok(object)),
        Ok(None) => 0,
        Err(code) => finish_create(state, ComKind::D3D11Texture2D, Err(code)),
    }
}

/// The surface of a texture.
pub fn nod_dxgi_create_surface_from_texture<T, F: Fn(&T) -> Result<T, i32>>(
    state: &mut ComState<T>,
    call: F,
    texture_handle: u64,
) -> (answer: u64)
    requires
        old(state)@.wf(),
        old(state)@.has_handle(),
        forall|o0: &T| call.requires((o0,)),
    ensures
        final(state)@.wf(),
        match old(state)@.held(ComKind::D3D11Texture2D, texture_handle) {
            None => answer == 0 && final(state)@ == old(state)@,
            Some(texture) => exists|outcome: Result<T, i32>| #[trigger]
                call.ensures((&texture,), outcome)
                    && created(old(state)@, final(state)@, ComKind::DxgiSurface, outcome, answer),
        },
{
    let texture = match get_d3d11_texture_2d(state, texture_handle) {
        Some(object) => object,
        None => return 0,
    };
    let outcome = call(texture);
    finish_create(state, ComKind::DxgiSurface, outcome)
}

/// The DXGI side of a device.
pub fn nod_dxgi_device_from_d3d_device<T, F: Fn(&T) -> Result<T, i32>>(
    state: &mut ComState<T>,
    call: F,
    device_handle: u64,
) -> (answer: u64)
    requires
        old(state)@.wf(),
        old(state)@.has_handle(),
        forall|o0: &T| call.requires((o0,)),
    ensures
        final(state)@.wf(),
        match old(state)@.held(ComKind::D3D11Device, device_handle) {
            None => answer == 0 && final(state)@ == old(state)@,
            Some(device) => exists|outcome: Result<T, i32>| #[trigger]
                call.ensures((&device,), outcome)
                    && created(old(state)@, final(state)@, ComKind::DxgiDevice, outcome, answer),
        },
{
    let device = match get_d3d11_device(state, device_handle) {
        Some(object) => object,
        None => return 0,
    };
    let outcome = call(device);
    finish_create(state, ComKind::DxgiDevice, outcome)
}

/// The factory that made the adapter of a device.
pub fn nod_dxgi_factory_from_d3d_device<T, F: Fn(&T) -> Result<T, i32>>(
    state: &mut ComState<T>,
    call: F,
    device_handle: u64,
) -> (answer: u64)
    requires
        old(state)@.wf(),
        old(state)@.has_handle(),
        forall|o0: &T| call.requires((o0,)),
    ensures
        final(state)@.wf(),
        match old(state)@.held(ComKind::D3D11Device, device_handle) {
            None => answer == 0 && final(state)@ == old(state)@,
            Some(device) => exists|outcome: Result<T, i32>| #[trigger]
                call.ensures((&device,), outcome)
                    && created(old(state)@, final(state)@, ComKind::DxgiFactory, outcome, answer),
        },
{
    let device = match get_d3d11_device(state, device_handle) {
        Some(object) => object,
        None => return 0,
    };
    let outcome = call(device);
    finish_create(state, ComKind::DxgiFactory, outcome)
}

// ----- swap chains -----

/// The swap chain that the words ask for.
pub open spec fn swap_chain_of(hwnd_word: u64, width: u64, height: u64) -> SwapChainDesc {
    SwapChainDesc {
        hwnd: untagged_signed(hwnd_word) as i64,
        width: low_bits(untagged(width)),
        height: low_bits(untagged(height)),
        format: FORMAT_BGRA,
        buffer_count: 2,
        alpha_mode: AlphaMode::Ignore,
    }
}

/// Makes a swap chain for a window.
pub fn nod_dxgi_create_swap_chain_for_hwnd<T, F: Fn(&T, &T, SwapChainDesc) -> Result<T, i32>>(
    state: &mut ComState<T>,
    call: F,
    factory_handle: u64,
    device_handle: u64,
    hwnd_word: u64,
    width: u64,
    height: u64,
) -> (answer: u64)
    requires
        old(state)@.wf(),
        old(state)@.has_handle(),
        forall|o0: &T, o1: &T, a0: SwapChainDesc| call.requires((o0, o1, a0)),
    ensures
        final(state)@.wf(),
        match old(state)@.held(ComKind::DxgiFactory, factory_handle) {
            None => answer == 0 && final(state)@ == old(state)@,
            Some(factory) => match old(state)@.held(ComKind::D3D11Device, device_handle) {
                None => answer == 0 && final(state)@ == old(state)@,
                Some(device) => if untagged_signed(hwnd_word) == 0 {
                    answer == 0 && final(state)@ == old(state)@
                } else {
                    exists|outcome: Result<T, i32>| #[trigger]
                    call.ensures(
                        (&factory, &device, swap_chain_of(hwnd_word, width, height)),
                        outcome,
                    )
                        && created(
                            old(state)@,
                            final(state)@,
                            ComKind::DxgiSwapChain,
                            outcome,
                            answer,
                        )
                },
            },
        },
{
    let factory = match get_dxgi_factory(state, factory_handle) {
        Some(object) => object,
        None => return 0,
    };
    let device = match get_d3d11_device(state, device_handle) {
        Some(object) => object,
        None => return 0,
    };
    let hwnd = untag_i64(hwnd_word);
    if hwnd == 0 {
        return 0;
    }
    let outcome = call(
        factory,
        device,
        SwapChainDesc {
            hwnd,
            width: low_u32(untag(width)),
            height: low_u32(untag(height)),
            format: FORMAT_BGRA,
            buffer_count: 2,
            alpha_mode: AlphaMode::Ignore,
        },
    );
    finish_create(state, ComKind::DxgiSwapChain, outcome)
}

/// A bitmap over the back buffer of a swap chain.
pub fn nod_d2d_create_bitmap_from_swap_chain<T, F: Fn(&T, &T, BitmapDesc) -> Result<T, i32>>(
    state: &mut ComState<T>,
    call: F,
    dc_handle: u64,
    sc_handle: u64,
) -> (answer: u64)
    requires
        old(state)@.wf(),
        old(state)@.has_handle(),
        forall|o0: &T, o1: &T, a0: BitmapDesc| call.requires((o0, o1, a0)),
    ensures
        final(state)@.wf(),
        match old(state)@.held(ComKind::D2DDeviceContext, dc_handle) {
            None => answer == 0 && final(state)@ == old(state)@,
            Some(context) => match old(state)@.held(ComKind::DxgiSwapChain, sc_handle) {
                None => answer == 0 && final(state)@ == old(state)@,
                Some(chain) => exists|outcome: Result<T, i32>| #[trigger]
                    call.ensures((&context, &chain, target_bitmap(AlphaMode::Ignore)), outcome)
                        && created(old(state)@, final(state)@, ComKind::D2DBitmap, outcome, answer),
            },
        },
{
    let context = match get_d2d_device_context(state, dc_handle) {
        Some(object) => object,
        None => return 0,
    };
    let chain = match get_dxgi_swap_chain(state, sc_handle) {
        Some(object) => object,
        None => return 0,
    };
    let outcome = call(
        context,
        chain,
        BitmapDesc { format: FORMAT_BGRA, alpha_mode: AlphaMode::Ignore, dots_per_inch: 96 },
    );
    finish_create(state, ComKind::D2DBitmap, outcome)
}

/// Shows the back buffer.
pub fn nod_dxgi_swap_chain_present<T, F: Fn(&T) -> Result<(), i32>>(
    state: &mut ComState<T>,
    call: F,
    sc_handle: u64,
) -> (answer: u64)
    requires
        old(state)@.wf(),
        forall|o0: &T| call.requires((o0,)),
    ensures
        final(state)@.wf(),
        match old(state)@.held(ComKind::DxgiSwapChain, sc_handle) {
            None => answer == tagged(NO_OBJECT) && final(state)@ == old(state)@,
            Some(chain) => exists|outcome: Result<(), i32>| #[trigger]
                call.ensures((&chain,), outcome)
                    && reported(old(state)@, final(state)@, outcome, answer),
        },
{
    let chain = match get_dxgi_swap_chain(state, sc_handle) {
        Some(object) => object,
        None => return tag(NO_OBJECT),
    };
    let outcome = call(chain);
    finish_status(state, outcome)
}

/// Resizes the buffers of a swap chain.
pub fn nod_dxgi_swap_chain_resize_buffers<T, F: Fn(&T, u32, u32) -> Result<(), i32>>(
    state: &mut ComState<T>,
    call: F,
    sc_handle: u64,
    width: u64,
    height: u64,
) -> (answer: u64)
    requires
        old(state)@.wf(),
        forall|o0: &T, a0: u32, a1: u32| call.requires((o0, a0, a1)),
    ensures
        final(state)@.wf(),
        match old(state)@.held(ComKind::DxgiSwapChain, sc_handle) {
            None => answer == tagged(NO_OBJECT) && final(state)@ == old(state)@,
            Some(chain) => exists|outcome: Result<(), i32>| #[trigger]
                call.ensures(
                    (&chain, low_bits(untagged(width)), low_bits(untagged(height))),
                    outcome,
                )
                    && reported(old(state)@, final(state)@, outcome, answer),
        },
{
    let chain = match get_dxgi_swap_chain(state, sc_handle) {
        Some(object) => object,
        None => return tag(NO_OBJECT),
    };
    let outcome = call(chain, low_u32(untag(width)), low_u32(untag(height)));
    finish_status(state, outcome)
}

// ----- drawing contexts -----

/// Makes a D2D factory.
pub fn nod_d2d_create_factory<T, F: Fn() -> Result<T, i32>>(
    state: &mut ComState<T>,
    call: F,
) -> (answer: u64)
    requires
        old(state)@.wf(),
        old(state)@.has_handle(),
        call.requires(()),
    ensures
        final(state)@.wf(),
        exists|outcome: Result<T, i32>| #[trigger]
            call.ensures((), outcome)
                && created(old(state)@, final(state)@, ComKind::D2DFactory, outcome, answer),
{
    let outcome = call();
    finish_create(state, ComKind::D2DFactory, outcome)
}

/// Makes a D2D device.
pub fn nod_d2d_create_device<T, F: Fn(&T, &T) -> Result<T, i32>>(
    state: &mut ComState<T>,
    call: F,
    d2d_factory_handle: u64,
    dxgi_device_handle: u64,
) -> (answer: u64)
    requires
        old(state)@.wf(),
        old(state)@.has_handle(),
        forall|o0: &T, o1: &T| call.requires((o0, o1)),
    ensures
        final(state)@.wf(),
        match old(state)@.held(ComKind::D2DFactory, d2d_factory_handle) {
            None => answer == 0 && final(state)@ == old(state)@,
            Some(factory) => match old(state)@.held(ComKind::DxgiDevice, dxgi_device_handle) {
                None => answer == 0 && final(state)@ == old(state)@,
                Some(device) => exists|outcome: Result<T, i32>| #[trigger]
                    call.ensures((&factory, &device), outcome)
                        && created(old(state)@, final(state)@, ComKind::D2DDevice, outcome, answer),
            },
        },
{
    let factory = match get_d2d_factory(state, d2d_factory_handle) {
        Some(object) => object,
        None => return 0,
    };
    let device = match get_dxgi_device(state, dxgi_device_handle) {
        Some(object) => object,
        None => return 0,
    };
    let outcome = call(factory, device);
    finish_create(state, ComKind::D2DDevice, outcome)
}

/// Makes a drawing context.
pub fn nod_d2d_create_device_context<T, F: Fn(&T) -> Result<T, i32>>(
    state: &mut ComState<T>,
    call: F,
    d2d_device_handle: u64,
) -> (answer: u64)
    requires
        old(state)@.wf(),
        old(state)@.has_handle(),
        forall|o0: &T| call.requires((o0,)),
    ensures
        final(state)@.wf(),
        match old(state)@.held(ComKind::D2DDevice, d2d_device_handle) {
            None => answer == 0 && final(state)@ == old(state)@,
            Some(device) => exists|outcome: Result<T, i32>| #[trigger]
                call.ensures((&device,), outcome)
                    && created(
                        old(state)@,
                        final(state)@,
                        ComKind::D2DDeviceContext,
                        outcome,
                        answer,
                    ),
        },
{
    let device = match get_d2d_device(state, d2d_device_handle) {
        Some(object) => object,
        None => return 0,
    };
    let outcome = call(device);
    finish_create(state, ComKind::D2DDeviceContext, outcome)
}

/// A bitmap over a surface.
pub fn nod_d2d_create_bitmap_for_target<T, F: Fn(&T, &T, BitmapDesc) -> Result<T, i32>>(
    state: &mut ComState<T>,
    call: F,
    dc_handle: u64,
    surface_handle: u64,
) -> (answer: u64)
    requires
        old(state)@.wf(),
        old(state)@.has_handle(),
        forall|o0: &T, o1: &T, a0: BitmapDesc| call.requires((o0, o1, a0)),
    ensures
        final(state)@.wf(),
        match old(state)@.held(ComKind::D2DDeviceContext, dc_handle) {
            None => answer == 0 && final(state)@ == old(state)@,
            Some(context) => match old(state)@.held(ComKind::DxgiSurface, surface_handle) {
                None => answer == 0 && final(state)@ == old(state)@,
                Some(surface) => exists|outcome: Result<T, i32>| #[trigger]
                    call.ensures(
                        (&context, &surface, target_bitmap(AlphaMode::Premultiplied)),
                        outcome,
                    )
                        && created(old(state)@, final(state)@, ComKind::D2DBitmap, outcome, answer),
            },
        },
{
    let context = match get_d2d_device_context(state, dc_handle) {
        Some(object) => object,
        None => return 0,
    };
    let surface = match get_dxgi_surface(state, surface_handle) {
        Some(object) => object,
        None => return 0,
    };
    let outcome = call(
        context,
        surface,
        BitmapDesc { format: FORMAT_BGRA, alpha_mode: AlphaMode::Premultiplied, dots_per_inch: 96 },
    );
    finish_create(state, ComKind::D2DBitmap, outcome)
}

/// Makes a bitmap the target of a drawing context.
pub fn nod_d2d_set_target<T, F: Fn(&T, &T) -> ()>(
    state: &mut ComState<T>,
    call: F,
    dc_handle: u64,
    bitmap_handle: u64,
) -> (answer: u64)
    requires
        old(state)@.wf(),
        forall|o0: &T, o1: &T| call.requires((o0, o1)),
    ensures
        final(state)@.wf(),
        match old(state)@.held(ComKind::D2DDeviceContext, dc_handle) {
            None => answer == 0 && final(state)@ == old(state)@,
            Some(context) => match old(state)@.held(ComKind::D2DBitmap, bitmap_handle) {
                None => answer == 0 && final(state)@ == old(state)@,
                Some(bitmap) => call.ensures((&context, &bitmap), ()) && answer == tagged(1)
                    && final(state)@ == old(state)@,
            },
        },
{
    let context = match get_d2d_device_context(state, dc_handle) {
        Some(object) => object,
        None => return 0,
    };
    let bitmap = match get_d2d_bitmap(state, bitmap_handle) {
        Some(object) => object,
        None => return 0,
    };
    call(context, bitmap);
    tag(1)
}

/// The render target of a drawing context.
pub fn dc_as_render_target<T, C: Fn(&T) -> Result<T, i32>>(
    state: &mut ComState<T>,
    cast: C,
    dc_handle: u64,
) -> (target: Option<T>)
    requires
        old(state)@.wf(),
        forall|o: &T| cast.requires((o,)),
    ensures
        final(state)@.wf(),
        match old(state)@.held(ComKind::D2DDeviceContext, dc_handle) {
            None => target is None && final(state)@ == old(state)@,
            Some(context) => exists|r: Result<T, i32>| #[trigger]
                cast.ensures((&context,), r) && match r {
                    Ok(t) => target == Some(t) && final(state)@ == old(state)@,
                    Err(code) => target is None && final(state)@ == old(state)@.with_hresult(code),
                },
        },
{
    let context = match get_d2d_device_context(state, dc_handle) {
        Some(object) => object,
        None => return None,
    };
    let outcome = cast(context);
    hresult_to_zero(state, outcome)
}

/// Begins drawing.
pub fn nod_d2d_begin_draw<T, C: Fn(&T) -> Result<T, i32>, F: Fn(&T) -> ()>(
    state: &mut ComState<T>,
    cast: C,
    call: F,
    dc_handle: u64,
) -> (answer: u64)
    requires
        old(state)@.wf(),
        forall|o: &T| cast.requires((o,)),
        forall|o0: &T| call.requires((o0,)),
    ensures
        final(state)@.wf(),
        match old(state)@.held(ComKind::D2DDeviceContext, dc_handle) {
            None => answer == 0 && final(state)@ == old(state)@,
            Some(context) => exists|c: Result<T, i32>| #[trigger]
                cast.ensures((&context,), c) && match c {
                    Err(code) => answer == 0 && final(state)@ == old(state)@.with_hresult(
                        code,
                    ),
                    Ok(target) => call.ensures((&target,), ()) && answer == tagged(1)
                        && final(state)@ == old(state)@,
                },
        },
{
    let target = match dc_as_render_target(state, cast, dc_handle) {
        Some(t) => t,
        None => return 0,
    };
    call(&target);
    tag(1)
}

/// Ends drawing and answers the status.
pub fn nod_d2d_end_draw<T, C: Fn(&T) -> Result<T, i32>, F: Fn(&T) -> Result<(), i32>>(
    state: &mut ComState<T>,
    cast: C,
    call: F,
    dc_handle: u64,
) -> (answer: u64)
    requires
        old(state)@.wf(),
        forall|o: &T| cast.requires((o,)),
        forall|o0: &T| call.requires((o0,)),
    ensures
        final(state)@.wf(),
        match old(state)@.held(ComKind::D2DDeviceContext, dc_handle) {
            None => answer == tagged(NO_OBJECT) && final(state)@ == old(state)@,
            Some(context) => exists|c: Result<T, i32>| #[trigger]
                cast.ensures((&context,), c) && match c {
                    Err(code) => answer == tagged(NO_OBJECT)
                        && final(state)@ == old(state)@.with_hresult(
                        code,
                    ),
                    Ok(target) => exists|outcome: Result<(), i32>| #[trigger]
                        call.ensures((&target,), outcome)
                            && reported(old(state)@, final(state)@, outcome, answer),
                },
        },
{
    let target = match dc_as_render_target(state, cast, dc_handle) {
        Some(t) => t,
        None => return tag(NO_OBJECT),
    };
    let outcome = call(&target);
    finish_status(state, outcome)
}

/// Fills the target with a colour.
pub fn nod_d2d_clear<T, C: Fn(&T) -> Result<T, i32>, F: Fn(&T, Color) -> ()>(
    state: &mut ComState<T>,
    cast: C,
    call: F,
    dc_handle: u64,
    r: u64,
    g: u64,
    b: u64,
    a: u64,
) -> (answer: u64)
    requires
        old(state)@.wf(),
        forall|o: &T| cast.requires((o,)),
        forall|o0: &T, a0: Color| call.requires((o0, a0)),
    ensures
        final(state)@.wf(),
        match old(state)@.held(ComKind::D2DDeviceContext, dc_handle) {
            None => answer == 0 && final(state)@ == old(state)@,
            Some(context) => exists|c: Result<T, i32>| #[trigger]
                cast.ensures((&context,), c) && match c {
                    Err(code) => answer == 0 && final(state)@ == old(state)@.with_hresult(
                        code,
                    ),
                    Ok(target) => call.ensures((&target, color_of(r, g, b, a)), ())
                        && answer == tagged(1) && final(state)@ == old(state)@,
                },
        },
{
    let target = match dc_as_render_target(state, cast, dc_handle) {
        Some(t) => t,
        None => return 0,
    };
    call(&target, decode_color(r, g, b, a));
    tag(1)
}

/// Draws without transformation from here on.
pub fn nod_d2d_set_transform_identity<T, C: Fn(&T) -> Result<T, i32>, F: Fn(&T) -> ()>(
    state: &mut ComState<T>,
    cast: C,
    call: F,
    dc_handle: u64,
) -> (answer: u64)
    requires
        old(state)@.wf(),
        forall|o: &T| cast.requires((o,)),
        forall|o0: &T| call.requires((o0,)),
    ensures
        final(state)@.wf(),
        match old(state)@.held(ComKind::D2DDeviceContext, dc_handle) {
            None => answer == 0 && final(state)@ == old(state)@,
            Some(context) => exists|c: Result<T, i32>| #[trigger]
                cast.ensures((&context,), c) && match c {
                    Err(code) => answer == 0 && final(state)@ == old(state)@.with_hresult(
                        code,
                    ),
                    Ok(target) => call.ensures((&target,), ()) && answer == tagged(1)
                        && final(state)@ == old(state)@,
                },
        },
{
    let target = match dc_as_render_target(state, cast, dc_handle) {
        Some(t) => t,
        None => return 0,
    };
    call(&target);
    tag(1)
}

// ----- text -----

/// Makes a DirectWrite factory.
pub fn nod_dwrite_create_factory<T, F: Fn() -> Result<T, i32>>(
    state: &mut ComState<T>,
    call: F,
) -> (answer: u64)
    requires
        old(state)@.wf(),
        old(state)@.has_handle(),
        call.requires(()),
    ensures
        final(state)@.wf(),
        exists|outcome: Result<T, i32>| #[trigger]
            call.ensures((), outcome)
                && created(old(state)@, final(state)@, ComKind::DWriteFactory, outcome, answer),
{
    let outcome = call();
    finish_create(state, ComKind::DWriteFactory, outcome)
}

/// A text format to make. Names are zero-terminated UTF-16.
pub struct TextFormatDesc {
    pub family: Vec<u16>,
    /// Hundredths of a pixel.
    pub size_x100: u64,
    pub locale: Vec<u16>,
}

/// The text format that the words ask for.
pub open spec fn is_text_format(
    d: TextFormatDesc,
    heap: Seq<crate::heap::ObjectView>,
    family_word: u64,
    size_x100: u64,
    locale_word: u64,
) -> bool {
    &&& d.family@ == utf16_units(held_text(heap, Word { raw: family_word })->0).push(0)
    &&& d.size_x100 == untagged(size_x100)
    &&& d.locale@ == utf16_units(held_text(heap, Word { raw: locale_word })->0).push(0)
}

/// Makes a text format.
pub fn nod_dwrite_create_text_format<T, F: Fn(&T, &TextFormatDesc) -> Result<T, i32>>(
    state: &mut ComState<T>,
    heap: &Heap,
    call: F,
    factory_handle: u64,
    family_word: u64,
    size_x100: u64,
    locale_word: u64,
) -> (answer: u64)
    requires
        old(state)@.wf(),
        old(state)@.has_handle(),
        held_text(heap@, Word { raw: family_word }) is Some,
        held_text(heap@, Word { raw: locale_word }) is Some,
        forall|o: &T, d: &TextFormatDesc| call.requires((o, d)),
    ensures
        final(state)@.wf(),
        match old(state)@.held(ComKind::DWriteFactory, factory_handle) {
            None => answer == 0 && final(state)@ == old(state)@,
            Some(factory) => exists|d: TextFormatDesc, r: Result<T, i32>| #[trigger]
                call.ensures((&factory, &d), r) && is_text_format(
                    d,
                    heap@,
                    family_word,
                    size_x100,
                    locale_word,
                ) && created(
                    old(state)@,
                    final(state)@,
                    ComKind::DWriteTextFormat,
                    r,
                    answer,
                ),
        },
{
    let factory = match get_dwrite_factory(state, factory_handle) {
        Some(object) => object,
        None => return 0,
    };
    let desc = TextFormatDesc {
        family: utf16_from_dylan_byte_string(heap, family_word),
        size_x100: untag(size_x100),
        locale: utf16_from_dylan_byte_string(heap, locale_word),
    };
    let outcome = call(factory, &desc);
    finish_create(state, ComKind::DWriteTextFormat, outcome)
}

/// A text layout to make, in pixels.
pub struct TextLayoutDesc {
    pub text: Vec<u16>,
    pub max_width: u64,
    pub max_height: u64,
}

/// The text layout that the words ask for.
pub open spec fn is_text_layout(
    d: TextLayoutDesc,
    heap: Seq<crate::heap::ObjectView>,
    text_word: u64,
    max_width: u64,
    max_height: u64,
) -> bool {
    &&& d.text@ == utf16_units(held_text(heap, Word { raw: text_word })->0)
    &&& d.max_width == untagged(max_width)
    &&& d.max_height == untagged(max_height)
}

/// Makes a text layout.
pub fn nod_dwrite_create_text_layout<T, F: Fn(&T, &T, &TextLayoutDesc) -> Result<T, i32>>(
    state: &mut ComState<T>,
    heap: &Heap,
    call: F,
    factory_handle: u64,
    text_word: u64,
    format_handle: u64,
    max_width_pixels: u64,
    max_height_pixels: u64,
) -> (answer: u64)
    requires
        old(state)@.wf(),
        old(state)@.has_handle(),
        held_text(heap@, Word { raw: text_word }) is Some,
        forall|o: &T, p: &T, d: &TextLayoutDesc| call.requires((o, p, d)),
    ensures
        final(state)@.wf(),
        match old(state)@.held(ComKind::DWriteFactory, factory_handle) {
            None => answer == 0 && final(state)@ == old(state)@,
            Some(factory) => match old(state)@.held(ComKind::DWriteTextFormat, format_handle) {
                None => answer == 0 && final(state)@ == old(state)@,
                Some(format) => exists|d: TextLayoutDesc, r: Result<T, i32>| #[trigger]
                    call.ensures((&factory, &format, &d), r) && is_text_layout(
                        d,
                        heap@,
                        text_word,
                        max_width_pixels,
                        max_height_pixels,
                    ) && created(
                        old(state)@,
                        final(state)@,
                        ComKind::DWriteTextLayout,
                        r,
                        answer,
                    ),
            },
        },
{
    let factory = match get_dwrite_factory(state, factory_handle) {
        Some(object) => object,
        None => return 0,
    };
    let format = match get_dwrite_text_format(state, format_handle) {
        Some(object) => object,
        None => return 0,
    };
    let desc = TextLayoutDesc {
        text: utf16_from_dylan_byte_string_no_null(heap, text_word),
        max_width: untag(max_width_pixels),
        max_height: untag(max_height_pixels),
    };
    let outcome = call(factory, format, &desc);
    finish_create(state, ComKind::DWriteTextLayout, outcome)
}

/// The size of a layout, or a point in it, in pixels.
#[derive(Clone, Copy, PartialEq, Eq, Structural, Debug)]
pub struct Extent {
    pub x: u32,
    pub y: u32,
}

/// The size of a layout: the height above the width; zero if it cannot be had.
pub fn nod_dwrite_get_layout_metrics<T, F: Fn(&T) -> Option<Extent>>(
    state: &mut ComState<T>,
    call: F,
    layout_handle: u64,
) -> (answer: u64)
    requires
        old(state)@.wf(),
        forall|o0: &T| call.requires((o0,)),
    ensures
        final(state)@.wf(),
        match old(state)@.held(ComKind::DWriteTextLayout, layout_handle) {
            None => answer == 0 && final(state)@ == old(state)@,
            Some(layout) => exists|outcome: Option<Extent>| #[trigger]
                call.ensures((&layout,), outcome) && final(state)@ == old(state)@
                    && answer == (match outcome {
                    Some(v) => tagged(packed(v.x, v.y)),
                    None => 0,
                }),
        },
{
    let layout = match get_dwrite_text_layout(state, layout_handle) {
        Some(object) => object,
        None => return 0,
    };
    match call(layout) {
        Some(v) => tag(pack(v.x, v.y)),
        None => 0,
    }
}

/// Where a position of the text stands: the vertical coordinate above the
/// horizontal one; zero if it cannot be had.
pub fn nod_dwrite_hit_test_text_position<T, F: Fn(&T, u32, bool) -> Option<Extent>>(
    state: &mut ComState<T>,
    call: F,
    layout_handle: u64,
    text_position: u64,
    is_trailing_x10: u64,
) -> (answer: u64)
    requires
        old(state)@.wf(),
        forall|o0: &T, a0: u32, a1: bool| call.requires((o0, a0, a1)),
    ensures
        final(state)@.wf(),
        match old(state)@.held(ComKind::DWriteTextLayout, layout_handle) {
            None => answer == 0 && final(state)@ == old(state)@,
            Some(layout) => exists|outcome: Option<Extent>| #[trigger]
                call.ensures(
                    (&layout, low_bits(untagged(text_position)), says_yes(is_trailing_x10)),
                    outcome,
                )
                    && final(state)@ == old(state)@ && answer == (match outcome {
                    Some(v) => tagged(packed(v.x, v.y)),
                    None => 0,
                }),
        },
{
    let layout = match get_dwrite_text_layout(state, layout_handle) {
        Some(object) => object,
        None => return 0,
    };
    match call(layout, low_u32(untag(text_position)), untag(is_trailing_x10) != 0) {
        Some(v) => tag(pack(v.x, v.y)),
        None => 0,
    }
}

/// What stands at a point: the character that begins at `position`, and whether
/// the point lies on its trailing half.
#[derive(Clone, Copy, PartialEq, Eq, Structural, Debug)]
pub struct HitTest {
    pub position: u32,
    pub length: u32,
    pub is_trailing: bool,
}

/// Where the cursor goes: behind the character if its trailing half was hit.
pub open spec fn cursor_position(hit: HitTest) -> u64 {
    if hit.is_trailing {
        (hit.position + hit.length) as u64
    } else {
        hit.position as u64
    }
}

fn cursor_at(hit: HitTest) -> (p: u64)
    ensures
        p == cursor_position(hit),
{
    if hit.is_trailing {
        hit.position as u64 + hit.length as u64
    } else {
        hit.position as u64
    }
}

/// The position of the text at a point; zero if it cannot be had.
pub fn nod_dwrite_hit_test_point<T, F: Fn(&T, i64, i64) -> Option<HitTest>>(
    state: &mut ComState<T>,
    call: F,
    layout_handle: u64,
    point_x: u64,
    point_y: u64,
) -> (answer: u64)
    requires
        old(state)@.wf(),
        forall|o0: &T, a0: i64, a1: i64| call.requires((o0, a0, a1)),
    ensures
        final(state)@.wf(),
        match old(state)@.held(ComKind::DWriteTextLayout, layout_handle) {
            None => answer == 0 && final(state)@ == old(state)@,
            Some(layout) => exists|outcome: Option<HitTest>| #[trigger]
                call.ensures((&layout, number_of(point_x), number_of(point_y)), outcome)
                    && final(state)@ == old(state)@ && answer == (match outcome {
                    Some(v) => tagged(cursor_position(v)),
                    None => 0,
                }),
        },
{
    let layout = match get_dwrite_text_layout(state, layout_handle) {
        Some(object) => object,
        None => return 0,
    };
    match call(layout, untag_i64(point_x), untag_i64(point_y)) {
        Some(v) => tag(cursor_at(v)),
        None => 0,
    }
}

/// Sets the distance of lines and their baseline, in tenths of a pixel. Answers
/// one on success, else zero.
pub fn nod_dwrite_set_line_spacing<T, F: Fn(&T, u64, u64) -> bool>(
    state: &mut ComState<T>,
    call: F,
    format_handle: u64,
    line_spacing_x10: u64,
    baseline_x10: u64,
) -> (answer: u64)
    requires
        old(state)@.wf(),
        forall|o0: &T, a0: u64, a1: u64| call.requires((o0, a0, a1)),
    ensures
        final(state)@.wf(),
        match old(state)@.held(ComKind::DWriteTextFormat, format_handle) {
            None => answer == tagged(0) && final(state)@ == old(state)@,
            Some(format) => exists|outcome: bool| #[trigger]
                call.ensures((&format, untagged(line_spacing_x10), untagged(baseline_x10)), outcome)
                    && final(state)@ == old(state)@ && answer == (if outcome {
                    tagged(1)
                } else {
                    tagged(0)
                }),
        },
{
    let format = match get_dwrite_text_format(state, format_handle) {
        Some(object) => object,
        None => return tag(0),
    };
    if call(format, untag(line_spacing_x10), untag(baseline_x10)) {
        tag(1)
    } else {
        tag(0)
    }
}

/// Draws a range of a layout with a brush. Answers one on success, else zero.
pub fn nod_dwrite_set_drawing_effect<T, F: Fn(&T, &T, u32, u32) -> bool>(
    state: &mut ComState<T>,
    call: F,
    layout_handle: u64,
    brush_handle: u64,
    start: u64,
    length: u64,
) -> (answer: u64)
    requires
        old(state)@.wf(),
        forall|o0: &T, o1: &T, a0: u32, a1: u32| call.requires((o0, o1, a0, a1)),
    ensures
        final(state)@.wf(),
        match old(state)@.held(ComKind::DWriteTextLayout, layout_handle) {
            None => answer == tagged(0) && final(state)@ == old(state)@,
            Some(layout) => match old(state)@.held(ComKind::D2DSolidColorBrush, brush_handle) {
                None => answer == tagged(0) && final(state)@ == old(state)@,
                Some(brush) => exists|outcome: bool| #[trigger]
                    call.ensures(
                        (&layout, &brush, low_bits(untagged(start)), low_bits(untagged(length))),
                        outcome,
                    )
                        && final(state)@ == old(state)@ && answer == (if outcome {
                        tagged(1)
                    } else {
                        tagged(0)
                    }),
            },
        },
{
    let layout = match get_dwrite_text_layout(state, layout_handle) {
        Some(object) => object,
        None => return tag(0),
    };
    let brush = match get_d2d_solid_brush(state, brush_handle) {
        Some(object) => object,
        None => return tag(0),
    };
    if call(layout, brush, low_u32(untag(start)), low_u32(untag(length))) {
        tag(1)
    } else {
        tag(0)
    }
}

// ----- drawing -----

/// Makes a brush of one colour.
pub fn nod_d2d_create_solid_color_brush<
    T,
    C: Fn(&T) -> Result<T, i32>,
    F: Fn(&T, Color) -> Result<T, i32>,
>(
    state: &mut ComState<T>,
    cast: C,
    call: F,
    dc_handle: u64,
    r: u64,
    g: u64,
    b: u64,
    a: u64,
) -> (answer: u64)
    requires
        old(state)@.wf(),
        old(state)@.has_handle(),
        forall|o: &T| cast.requires((o,)),
        forall|o0: &T, a0: Color| call.requires((o0, a0)),
    ensures
        final(state)@.wf(),
        match old(state)@.held(ComKind::D2DDeviceContext, dc_handle) {
            None => answer == 0 && final(state)@ == old(state)@,
            Some(context) => exists|c: Result<T, i32>| #[trigger]
                cast.ensures((&context,), c) && match c {
                    Err(code) => answer == 0 && final(state)@ == old(state)@.with_hresult(
                        code,
                    ),
                    Ok(target) => exists|outcome: Result<T, i32>| #[trigger]
                        call.ensures((&target, color_of(r, g, b, a)), outcome)
                            && created(
                                old(state)@,
                                final(state)@,
                                ComKind::D2DSolidColorBrush,
                                outcome,
                                answer,
                            ),
                },
        },
{
    let target = match dc_as_render_target(state, cast, dc_handle) {
        Some(t) => t,
        None => return 0,
    };
    let outcome = call(&target, decode_color(r, g, b, a));
    finish_create(state, ComKind::D2DSolidColorBrush, outcome)
}

/// Draws a layout at a point.
pub fn nod_d2d_draw_text_layout<T, C: Fn(&T) -> Result<T, i32>, F: Fn(&T, &T, &T, i64, i64) -> ()>(
    state: &mut ComState<T>,
    cast: C,
    call: F,
    dc_handle: u64,
    origin_x: u64,
    origin_y: u64,
    layout_handle: u64,
    brush_handle: u64,
) -> (answer: u64)
    requires
        old(state)@.wf(),
        forall|o: &T| cast.requires((o,)),
        forall|o0: &T, o1: &T, o2: &T, a0: i64, a1: i64| call.requires((o0, o1, o2, a0, a1)),
    ensures
        final(state)@.wf(),
        match old(state)@.held(ComKind::D2DDeviceContext, dc_handle) {
            None => answer == 0 && final(state)@ == old(state)@,
            Some(context) => exists|c: Result<T, i32>| #[trigger]
                cast.ensures((&context,), c) && match c {
                    Err(code) => answer == 0 && final(state)@ == old(state)@.with_hresult(
                        code,
                    ),
                    Ok(target) => match old(state)@.held(ComKind::DWriteTextLayout, layout_handle) {
                        None => answer == 0 && final(state)@ == old(state)@,
                        Some(layout) => match old(state)@.held(
                            ComKind::D2DSolidColorBrush,
                            brush_handle,
                        ) {
                            None => answer == 0 && final(state)@ == old(state)@,
                            Some(brush) => call.ensures(
                                (
                                    &target,
                                    &layout,
                                    &brush,
                                    number_of(origin_x),
                                    number_of(origin_y),
                                ),
                                (),
                            )
                                && answer == tagged(1) && final(state)@ == old(state)@,
                        },
                    },
                },
        },
{
    let target = match dc_as_render_target(state, cast, dc_handle) {
        Some(t) => t,
        None => return 0,
    };
    let layout = match get_dwrite_text_layout(state, layout_handle) {
        Some(object) => object,
        None => return 0,
    };
    let brush = match get_d2d_solid_brush(state, brush_handle) {
        Some(object) => object,
        None => return 0,
    };
    call(&target, layout, brush, untag_i64(origin_x), untag_i64(origin_y));
    tag(1)
}

/// Draws the outline of a rectangle; the width of the stroke is in tenths of a
/// pixel.
pub fn nod_d2d_draw_rectangle<T, C: Fn(&T) -> Result<T, i32>, F: Fn(&T, &T, Rect, u64) -> ()>(
    state: &mut ComState<T>,
    cast: C,
    call: F,
    dc_handle: u64,
    left: u64,
    top: u64,
    right: u64,
    bottom: u64,
    brush_handle: u64,
    stroke_width_x10: u64,
) -> (answer: u64)
    requires
        old(state)@.wf(),
        forall|o: &T| cast.requires((o,)),
        forall|o0: &T, o1: &T, a0: Rect, a1: u64| call.requires((o0, o1, a0, a1)),
    ensures
        final(state)@.wf(),
        match old(state)@.held(ComKind::D2DDeviceContext, dc_handle) {
            None => answer == 0 && final(state)@ == old(state)@,
            Some(context) => exists|c: Result<T, i32>| #[trigger]
                cast.ensures((&context,), c) && match c {
                    Err(code) => answer == 0 && final(state)@ == old(state)@.with_hresult(
                        code,
                    ),
                    Ok(target) => match old(state)@.held(
                        ComKind::D2DSolidColorBrush,
                        brush_handle,
                    ) {
                        None => answer == 0 && final(state)@ == old(state)@,
                        Some(brush) => call.ensures(
                            (
                                &target,
                                &brush,
                                rect_of(left, top, right, bottom),
                                untagged(stroke_width_x10),
                            ),
                            (),
                        )
                            && answer == tagged(1) && final(state)@ == old(state)@,
                    },
                },
        },
{
    let target = match dc_as_render_target(state, cast, dc_handle) {
        Some(t) => t,
        None => return 0,
    };
    let brush = match get_d2d_solid_brush(state, brush_handle) {
        Some(object) => object,
        None => return 0,
    };
    call(&target, brush, decode_rect(left, top, right, bottom), untag(stroke_width_x10));
    tag(1)
}

/// Fills a rectangle.
pub fn nod_d2d_fill_rectangle<T, C: Fn(&T) -> Result<T, i32>, F: Fn(&T, &T, Rect) -> ()>(
    state: &mut ComState<T>,
    cast: C,
    call: F,
    dc_handle: u64,
    left: u64,
    top: u64,
    right: u64,
    bottom: u64,
    brush_handle: u64,
) -> (answer: u64)
    requires
        old(state)@.wf(),
        forall|o: &T| cast.requires((o,)),
        forall|o0: &T, o1: &T, a0: Rect| call.requires((o0, o1, a0)),
    ensures
        final(state)@.wf(),
        match old(state)@.held(ComKind::D2DDeviceContext, dc_handle) {
            None => answer == 0 && final(state)@ == old(state)@,
            Some(context) => exists|c: Result<T, i32>| #[trigger]
                cast.ensures((&context,), c) && match c {
                    Err(code) => answer == 0 && final(state)@ == old(state)@.with_hresult(
                        code,
                    ),
                    Ok(target) => match old(state)@.held(
                        ComKind::D2DSolidColorBrush,
                        brush_handle,
                    ) {
                        None => answer == 0 && final(state)@ == old(state)@,
                        Some(brush) => call.ensures(
                            (&target, &brush, rect_of(left, top, right, bottom)),
                            (),
                        )
                            && answer == tagged(1) && final(state)@ == old(state)@,
                    },
                },
        },
{
    let target = match dc_as_render_target(state, cast, dc_handle) {
        Some(t) => t,
        None => return 0,
    };
    let brush = match get_d2d_solid_brush(state, brush_handle) {
        Some(object) => object,
        None => return 0,
    };
    call(&target, brush, decode_rect(left, top, right, bottom));
    tag(1)
}

// ----- reading pixels -----

/// A mapped staging texture.
#[derive(Clone, Copy, PartialEq, Eq, Structural, Debug)]
pub struct MappedPixels {
    /// Address of the first pixel.
    pub address: u64,
    /// Bytes per row.
    pub row_pitch: u32,
}

/// What copying a texture and mapping the copy comes to. The staging texture is
/// registered and noted together with its row pitch.
pub open spec fn mapped<T>(
    before: ComView<T>,
    after: ComView<T>,
    outcome: Result<Option<(T, MappedPixels)>, i32>,
    answer: u64,
) -> bool {
    match outcome {
        Ok(Some((staging, pixels))) => {
            &&& answer == tagged(pixels.address)
            &&& after == (ComView {
                last_staging_handle: tagged(before.next_handle),
                last_mapped_row_pitch: tagged(pixels.row_pitch as u64),
                ..before.with_object(ComKind::D3D11Texture2D, staging)
            })
        },
        Ok(None) => answer == 0 && after == before,
        Err(code) => answer == 0 && after == before.with_hresult(code),
    }
}

/// The state before a mapping: nothing noted of an earlier one.
pub open spec fn nothing_mapped<T>(s: ComView<T>) -> ComView<T> {
    ComView { last_staging_handle: 0, last_mapped_row_pitch: 0, ..s }
}

/// The staging texture for a copy.
pub open spec fn staging_of(width: u64, height: u64) -> TextureDesc {
    TextureDesc {
        width: low_bits(untagged(width)),
        height: low_bits(untagged(height)),
        format: FORMAT_BGRA,
        usage: TextureUsage::Staging,
    }
}

/// Copies a texture to a staging texture and maps that for reading. Answers the
/// address of the pixels, or zero.
pub fn nod_d3d11_copy_to_staging_and_map<
    T,
    F: Fn(&T, &T, &T, TextureDesc) -> Result<Option<(T, MappedPixels)>, i32>,
>(
    state: &mut ComState<T>,
    call: F,
    device_handle: u64,
    ctx_handle: u64,
    tex_handle: u64,
    width: u64,
    height: u64,
) -> (answer: u64)
    requires
        old(state)@.wf(),
        old(state)@.has_handle(),
        forall|o: &T, p: &T, q: &T, d: TextureDesc| call.requires((o, p, q, d)),
    ensures
        final(state)@.wf(),
        ({
            let s = nothing_mapped(old(state)@);
            match (
                s.held(ComKind::D3D11Device, device_handle),
                s.held(ComKind::D3D11DeviceContext, ctx_handle),
                s.held(ComKind::D3D11Texture2D, tex_handle),
            ) {
                (Some(device), Some(context), Some(texture)) => exists|
                    r: Result<Option<(T, MappedPixels)>, i32>,
                | #[trigger]
                    call.ensures((&device, &context, &texture, staging_of(width, height)), r)
                        && mapped(s, final(state)@, r, answer),
                _ => answer == 0 && final(state)@ == s,
            }
        }),
{
    state.note_staging(0, 0);
    let device = match get_d3d11_device(state, device_handle) {
        Some(object) => object,
        None => return 0,
    };
    let context = match get_d3d11_device_context(state, ctx_handle) {
        Some(object) => object,
        None => return 0,
    };
    let texture = match get_d3d11_texture_2d(state, tex_handle) {
        Some(object) => object,
        None => return 0,
    };
    let desc = TextureDesc {
        width: low_u32(untag(width)),
        height: low_u32(untag(height)),
        format: FORMAT_BGRA,
        usage: TextureUsage::Staging,
    };
    match call(device, context, texture, desc) {
        Ok(Some((staging, pixels))) => {
            let handle = register(state, ComKind::D3D11Texture2D, staging);
            state.note_staging(tag(handle), tag(pixels.row_pitch as u64));
            tag(pixels.address)
        },
        Ok(None) => 0,
        Err(code) => {
            store_last_hresult(state, code);
            0
        },
    }
}

/// Ends the mapping of a staging texture.
pub fn nod_d3d11_unmap<T, F: Fn(&T, &T) -> ()>(
    state: &mut ComState<T>,
    call: F,
    ctx_handle: u64,
    staging_handle: u64,
) -> (answer: u64)
    requires
        old(state)@.wf(),
        forall|o0: &T, o1: &T| call.requires((o0, o1)),
    ensures
        final(state)@.wf(),
        match old(state)@.held(ComKind::D3D11DeviceContext, ctx_handle) {
            None => answer == 0 && final(state)@ == old(state)@,
            Some(context) => match old(state)@.held(ComKind::D3D11Texture2D, staging_handle) {
                None => answer == 0 && final(state)@ == old(state)@,
                Some(staging) => call.ensures((&context, &staging), ()) && answer == tagged(1)
                    && final(state)@ == old(state)@,
            },
        },
{
    let context = match get_d3d11_device_context(state, ctx_handle) {
        Some(object) => object,
        None => return 0,
    };
    let staging = match get_d3d11_texture_2d(state, staging_handle) {
        Some(object) => object,
        None => return 0,
    };
    call(context, staging);
    tag(1)
}

/// The red channel of a pixel: the third of its four bytes.
pub open spec fn red_at(pixels: Seq<u8>, pitch: int, x: int, y: int) -> u8 {
    pixels[y * pitch + x * 4 + 2]
}

/// How many of the first `x` pixels of row `y` have red in them.
pub open spec fn red_in_row(pixels: Seq<u8>, pitch: int, x: int, y: int) -> int
    decreases x,
{
    if x <= 0 {
        0
    } else {
        red_in_row(pixels, pitch, x - 1, y) + if red_at(pixels, pitch, x - 1, y) != 0 {
            1int
        } else {
            0
        }
    }
}

/// How many pixels of the first `y` rows have red in them.
pub open spec fn red_in_rows(pixels: Seq<u8>, pitch: int, width: int, y: int) -> int
    decreases y,
{
    if y <= 0 {
        0
    } else {
        red_in_rows(pixels, pitch, width, y - 1) + red_in_row(pixels, pitch, width, y - 1)
    }
}

/// Every pixel lies in the mapped bytes.
pub open spec fn pixels_fit(pixels: Seq<u8>, pitch: int, width: int, height: int) -> bool {
    forall|x: int, y: int|
        0 <= x < width && 0 <= y < height ==> #[trigger] (y * pitch + x * 4) + 2 < pixels.len()
}

/// Counts the pixels with red in them. The arguments are words; absent pixels
/// count as none.
pub fn nod_count_non_zero_red(pixels: Option<&[u8]>, width: u64, height: u64, row_pitch: u64) -> (r:
    u64)
    requires
        pixels matches Some(p) ==> pixels_fit(
            p@,
            untagged(row_pitch) as int,
            untagged(width) as int,
            untagged(height) as int,
        ) && untagged(width) * untagged(height) <= u64::MAX,
    ensures
        match pixels {
            None => r == 0,
            Some(p) => r == tagged(
                red_in_rows(
                    p@,
                    untagged(row_pitch) as int,
                    untagged(width) as int,
                    untagged(height) as int,
                ) as u64,
            ),
        },
{
    let p = match pixels {
        Some(p) => p,
        None => return 0,
    };
    let w = untag(width);
    let h = untag(height);
    let pitch = untag(row_pitch);
    let size: usize = p.len();
    let mut count: u64 = 0;
    let mut y: u64 = 0;
    while y < h
        invariant
            y <= h,
            p@.len() == size,
            pixels_fit(p@, pitch as int, w as int, h as int),
            w * h <= u64::MAX,
            count == red_in_rows(p@, pitch as int, w as int, y as int),
            count <= w * y,
        decreases h - y,
    {
        let ghost rows = count as int;
        let mut x: u64 = 0;
        proof {
            assert(w * y + w == w * (y + 1)) by (nonlinear_arith);
            assert(w * (y + 1) <= w * h) by (nonlinear_arith)
                requires
                    y < h,
            ;
        }
        while x < w
            invariant
                x <= w,
                y < h,
                p@.len() == size,
                pixels_fit(p@, pitch as int, w as int, h as int),
                w * y + w <= u64::MAX,
                rows <= w * y,
                count == rows + red_in_row(p@, pitch as int, x as int, y as int),
                rows <= count <= rows + x,
            decreases w - x,
        {
            proof {
                assert((y * pitch + x * 4) + 2 < p@.len());
                assert(0 <= y * pitch) by (nonlinear_arith)
                    requires
                        y >= 0,
                        pitch >= 0,
                ;
            }
            let offset: usize = (y * pitch + x * 4) as usize;
            if p[offset + 2] != 0 {
                count += 1;
            }
            x += 1;
        }
        y += 1;
    }
    tag(count)
}

// ----- what words ask for and what comes back -----

/// A created object is answered by the handle that was next; a failure is answered by
/// zero and remembered; where nothing was made, nothing changes.
pub proof fn created_objects_are_answered<T>(
    before: ComView<T>,
    after: ComView<T>,
    kind: ComKind,
    outcome: Result<Option<T>, i32>,
    answer: u64,
)
    requires
        before.wf(),
        before.next_handle <= FIXNUM_MAX,
        created_if_any(before, after, kind, outcome, answer),
    ensures
        outcome matches Ok(Some(object)) ==> {
            &&& answer == 2 * before.next_handle
            &&& after.objects.contains_key(before.next_handle)
            &&& after.objects[before.next_handle].kind == kind
            &&& after.objects[before.next_handle].object == object
            &&& after.held(kind, answer) == Some(object)
            &&& after.last_hresult == before.last_hresult
        },
        outcome matches Ok(None) ==> answer == 0 && after == before,
        outcome matches Err(code) ==> {
            &&& answer == 0
            &&& after.last_hresult == code || after.last_hresult == code + 0x1_0000_0000
            &&& after.objects == before.objects
            &&& after.next_handle == before.next_handle
        },
{
    if let Ok(Some(object)) = outcome {
        tagging_doubles(before.next_handle);
        handle_finds_its_object(before, kind, object);
        new_objects_take_the_next_handle(before, kind, object, before.next_handle);
    }
}

/// A status is zero, or the failure code, which is remembered too.
pub proof fn statuses_are_reported<T>(
    before: ComView<T>,
    after: ComView<T>,
    outcome: Result<(), i32>,
    answer: u64,
)
    requires
        reported(before, after, outcome, answer),
    ensures
        outcome is Ok ==> answer == 0 && after == before,
        outcome matches Err(code) ==> answer == 2 * after.last_hresult && (after.last_hresult
            == code || after.last_hresult == code + 0x1_0000_0000) && after.objects
            == before.objects,
{
    if let Err(code) = outcome {
        tagging_doubles(bits32(code));
    }
}

/// A colour takes red, green, blue and alpha from the words in order.
pub proof fn colours_take_their_channels_in_order(r: u8, g: u8, b: u8, a: u8)
    ensures
        color_of(
            fixnum(r as int).raw,
            fixnum(g as int).raw,
            fixnum(b as int).raw,
            fixnum(a as int).raw,
        ) == (Color { r, g, b, a }),
{
    words_carry_their_number(r as int, 1);
    words_carry_their_number(g as int, 1);
    words_carry_their_number(b as int, 1);
    words_carry_their_number(a as int, 1);
}

/// A rectangle takes its edges from the words in order.
pub proof fn rectangles_take_their_edges_in_order(left: int, top: int, right: int, bottom: int)
    requires
        in_fixnum_range(left),
        in_fixnum_range(top),
        in_fixnum_range(right),
        in_fixnum_range(bottom),
    ensures
        ({
            let r = rect_of(
                fixnum(left).raw,
                fixnum(top).raw,
                fixnum(right).raw,
                fixnum(bottom).raw,
            );
            &&& r.left == left
            &&& r.top == top
            &&& r.right == right
            &&& r.bottom == bottom
            &&& number_of(fixnum(left).raw) == left
            &&& says_yes(fixnum(left).raw) <==> left != 0
        }),
{
    words_carry_their_number(left, 1);
    words_carry_their_number(top, 1);
    words_carry_their_number(right, 1);
    words_carry_their_number(bottom, 1);
}

/// Two packed numbers can be read back, the first from the low half.
pub proof fn packed_numbers_come_back(low: u32, high: u32)
    ensures
        packed(low, high) % 0x1_0000_0000 == low,
        packed(low, high) / 0x1_0000_0000 == high,
{
}

/// Textures and swap chains have the width and the height of the words. What is drawn
/// to has the format asked for; copies and swap chains have the common one.
pub proof fn surfaces_have_the_size_asked_for(hwnd: int, width: u32, height: u32, format: i32)
    requires
        in_fixnum_range(hwnd),
    ensures
        ({
            let w = fixnum(width as int).raw;
            let h = fixnum(height as int).raw;
            &&& texture_of(w, h, fixnum(format as int).raw) == (TextureDesc {
                width,
                height,
                format,
                usage: TextureUsage::Draw,
            })
            &&& staging_of(w, h) == (TextureDesc {
                width,
                height,
                format: 87,
                usage: TextureUsage::Staging,
            })
            &&& swap_chain_of(fixnum(hwnd).raw, w, h) == (SwapChainDesc {
                hwnd: hwnd as i64,
                width,
                height,
                format: 87,
                buffer_count: 2,
                alpha_mode: AlphaMode::Ignore,
            })
        }),
{
    words_carry_their_number(hwnd, 1);
    words_carry_their_number(width as int, 1);
    words_carry_their_number(height as int, 1);
    words_carry_their_number(format as int, 1);
    if format < 0 {
        assert((format + 0x1_0000_0000_0000_0000) % 0x1_0000_0000 == format + 0x1_0000_0000);
    }
}

/// A bitmap to draw to has the common format, one pixel for each dot.
pub proof fn target_bitmaps_have_the_common_format(alpha_mode: AlphaMode)
    ensures
        target_bitmap(alpha_mode).format == 87,
        target_bitmap(alpha_mode).dots_per_inch == 96,
        target_bitmap(alpha_mode).alpha_mode == alpha_mode,
{
}

/// The cursor goes before the character that was hit, or behind it if its trailing
/// half was.
pub proof fn cursors_go_to_the_nearer_side(position: u32, length: u32)
    ensures
        cursor_position(HitTest { position, length, is_trailing: false }) == position,
        cursor_position(HitTest { position, length, is_trailing: true }) == position + length,
{
}

/// A mapped copy is registered, and its handle and row pitch are noted.
pub proof fn mapped_copies_are_noted<T>(
    before: ComView<T>,
    after: ComView<T>,
    staging: T,
    pixels: MappedPixels,
    answer: u64,
)
    requires
        before.wf(),
        before.next_handle <= FIXNUM_MAX,
        mapped(before, after, Ok(Some((staging, pixels))), answer),
    ensures
        answer as int == (2 * pixels.address) % 0x1_0000_0000_0000_0000,
        after.last_mapped_row_pitch == 2 * pixels.row_pitch,
        after.last_staging_handle == 2 * before.next_handle,
        after.held(ComKind::D3D11Texture2D, after.last_staging_handle) == Some(staging),
{
    tagging_doubles(pixels.address);
    tagging_doubles(pixels.row_pitch as u64);
    tagging_doubles(before.next_handle);
    handle_finds_its_object(before, ComKind::D3D11Texture2D, staging);
}

/// Counting goes pixel by pixel and row by row: a pixel counts if the third of its four
/// bytes is not zero.
pub proof fn red_is_counted_pixel_by_pixel(pixels: Seq<u8>, pitch: int, width: int, x: int, y: int)
    requires
        0 <= x,
        0 <= y,
    ensures
        red_in_row(pixels, pitch, 0, y) == 0,
        pixels[y * pitch + x * 4 + 2] != 0 ==> red_in_row(pixels, pitch, x + 1, y) == red_in_row(
            pixels,
            pitch,
            x,
            y,
        ) + 1,
        pixels[y * pitch + x * 4 + 2] == 0 ==> red_in_row(pixels, pitch, x + 1, y) == red_in_row(
            pixels,
            pitch,
            x,
            y,
        ),
        red_in_rows(pixels, pitch, width, 0) == 0,
        red_in_rows(pixels, pitch, width, y + 1) == red_in_rows(pixels, pitch, width, y)
            + red_in_row(pixels, pitch, width, y),
{
}

} // verus!
