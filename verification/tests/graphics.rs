use nod_runtime::com::{
    nod_com_last_hresult, nod_d3d11_last_mapped_row_pitch, nod_d3d11_last_staging_handle,
    register, registry_len, tag, ComKind, ComState,
};
use nod_runtime::graphics::{
    nod_count_non_zero_red, nod_d2d_begin_draw, nod_d2d_clear, nod_d2d_create_bitmap_for_target,
    nod_d2d_create_bitmap_from_swap_chain, nod_d2d_create_device, nod_d2d_create_device_context,
    nod_d2d_create_factory, nod_d2d_create_solid_color_brush, nod_d2d_draw_rectangle,
    nod_d2d_draw_text_layout, nod_d2d_end_draw, nod_d2d_fill_rectangle, nod_d2d_set_target,
    nod_d2d_set_transform_identity, nod_d3d11_copy_to_staging_and_map, nod_d3d11_create_device,
    nod_d3d11_create_texture_2d, nod_d3d11_get_immediate_context, nod_d3d11_unmap,
    nod_dwrite_create_factory, nod_dwrite_create_text_format, nod_dwrite_create_text_layout,
    nod_dwrite_get_layout_metrics, nod_dwrite_hit_test_point, nod_dwrite_hit_test_text_position,
    nod_dwrite_set_drawing_effect, nod_dwrite_set_line_spacing, nod_dxgi_create_factory,
    nod_dxgi_create_surface_from_texture, nod_dxgi_create_swap_chain_for_hwnd,
    nod_dxgi_device_from_d3d_device, nod_dxgi_factory_from_d3d_device,
    nod_dxgi_swap_chain_present, nod_dxgi_swap_chain_resize_buffers, AlphaMode, BitmapDesc, Color,
    Driver, Extent, HitTest, MappedPixels, Rect, SwapChainDesc, TextFormatDesc, TextLayoutDesc,
    TextureDesc, TextureUsage, FORMAT_BGRA, NO_OBJECT,
};
use nod_runtime::heap::Heap;
use nod_runtime::word::Word;

fn signed(n: i64) -> u64 {
    Word::from_fixnum(n).unwrap().raw()
}

#[test]
fn creating_registers_and_failing_is_remembered() {
    let mut s: ComState<u32> = ComState::new();
    let ok = nod_dxgi_create_factory(&mut s, || Ok(7u32));
    assert_eq!(ok, tag(1));
    assert_eq!(registry_len(&s), 1);
    let failed = nod_d2d_create_factory(&mut s, || Err::<u32, i32>(-1));
    assert_eq!(failed, 0);
    assert_eq!(registry_len(&s), 1);
    assert_eq!(nod_com_last_hresult(&mut s), tag(0xffff_ffff));
    assert_eq!(nod_dwrite_create_factory(&mut s, || Ok(8u32)), tag(2));
}

#[test]
fn devices_fall_back_to_software() {
    let mut s: ComState<u32> = ComState::new();
    let d = nod_d3d11_create_device(&mut s, |driver: Driver| match driver {
        Driver::Hardware => Err(-5),
        Driver::Software => Ok(Some(9)),
    });
    assert_eq!(d, tag(1));
    assert_eq!(nod_com_last_hresult(&mut s), tag(0xffff_fffb));
    let d = nod_d3d11_create_device(&mut s, |_: Driver| Ok(Some(4)));
    assert_eq!(d, tag(2));
    let d = nod_d3d11_create_device(&mut s, |_: Driver| Ok(None));
    assert_eq!(d, 0);
    let context = nod_d3d11_get_immediate_context(&mut s, |d: &u32| Ok(*d + 100), tag(1));
    assert_eq!(context, tag(3));
    assert_eq!(nod_d3d11_get_immediate_context(&mut s, |d: &u32| Ok(*d), tag(3)), 0);
}

#[test]
fn textures_are_described_from_words() {
    let mut s: ComState<u32> = ComState::new();
    let device = tag(register(&mut s, ComKind::D3D11Device, 1));
    let t = nod_d3d11_create_texture_2d(
        &mut s,
        |device: &u32, desc: TextureDesc| {
            assert_eq!(*device, 1);
            assert_eq!(
                desc,
                TextureDesc { width: 640, height: 480, format: 87, usage: TextureUsage::Draw }
            );
            Ok(Some(2))
        },
        device,
        tag(640),
        tag(480),
        tag(87),
    );
    assert_eq!(t, tag(2));
    let none = nod_d3d11_create_texture_2d(
        &mut s,
        |_: &u32, _: TextureDesc| Ok(None),
        device,
        tag(1),
        tag(1),
        tag(87),
    );
    assert_eq!(none, 0);
    let surface = nod_dxgi_create_surface_from_texture(&mut s, |t: &u32| Ok(*t + 1), t);
    assert_eq!(surface, tag(3));
    let dxgi = nod_dxgi_device_from_d3d_device(&mut s, |d: &u32| Ok(*d), device);
    assert_eq!(dxgi, tag(4));
    let factory = nod_dxgi_factory_from_d3d_device(&mut s, |d: &u32| Ok(*d), device);
    assert_eq!(factory, tag(5));
}

#[test]
fn swap_chains_need_a_window() {
    let mut s: ComState<u32> = ComState::new();
    let factory = tag(register(&mut s, ComKind::DxgiFactory, 1));
    let device = tag(register(&mut s, ComKind::D3D11Device, 2));
    let dc = tag(register(&mut s, ComKind::D2DDeviceContext, 3));
    let make = |_: &u32, _: &u32, desc: SwapChainDesc| {
        assert_eq!(
            desc,
            SwapChainDesc {
                hwnd: 99,
                width: 20,
                height: 10,
                format: FORMAT_BGRA,
                buffer_count: 2,
                alpha_mode: AlphaMode::Ignore,
            }
        );
        Ok(5)
    };
    let none =
        nod_dxgi_create_swap_chain_for_hwnd(&mut s, make, factory, device, 0, tag(20), tag(10));
    assert_eq!(none, 0);
    let chain = nod_dxgi_create_swap_chain_for_hwnd(
        &mut s,
        make,
        factory,
        device,
        tag(99),
        tag(20),
        tag(10),
    );
    assert_eq!(chain, tag(4));
    let bitmap = nod_d2d_create_bitmap_from_swap_chain(
        &mut s,
        |_: &u32, _: &u32, desc: BitmapDesc| {
            assert_eq!(desc.alpha_mode, AlphaMode::Ignore);
            assert_eq!(desc.dots_per_inch, 96);
            Ok(6)
        },
        dc,
        chain,
    );
    assert_eq!(bitmap, tag(5));
    assert_eq!(nod_dxgi_swap_chain_present(&mut s, |_: &u32| Ok(()), chain), 0);
    assert_eq!(nod_dxgi_swap_chain_present(&mut s, |_: &u32| Err(-2), chain), tag(0xffff_fffe));
    assert_eq!(nod_dxgi_swap_chain_present(&mut s, |_: &u32| Ok(()), 0), tag(NO_OBJECT));
    let resized = nod_dxgi_swap_chain_resize_buffers(
        &mut s,
        |_: &u32, w: u32, h: u32| if (w, h) == (30, 40) { Ok(()) } else { Err(1) },
        chain,
        tag(30),
        tag(40),
    );
    assert_eq!(resized, 0);
}

#[test]
fn drawing_goes_through_the_render_target() {
    let mut s: ComState<u32> = ComState::new();
    let factory = tag(register(&mut s, ComKind::D2DFactory, 1));
    let dxgi = tag(register(&mut s, ComKind::DxgiDevice, 2));
    let surface = tag(register(&mut s, ComKind::DxgiSurface, 3));
    let device = nod_d2d_create_device(&mut s, |_: &u32, _: &u32| Ok(4), factory, dxgi);
    let dc = nod_d2d_create_device_context(&mut s, |_: &u32| Ok(5), device);
    let bitmap = nod_d2d_create_bitmap_for_target(
        &mut s,
        |_: &u32, _: &u32, d: BitmapDesc| {
            assert_eq!(d.alpha_mode, AlphaMode::Premultiplied);
            Ok(6)
        },
        dc,
        surface,
    );
    assert_eq!(nod_d2d_set_target(&mut s, |_: &u32, _: &u32| (), dc, bitmap), tag(1));
    assert_eq!(nod_d2d_set_target(&mut s, |_: &u32, _: &u32| (), dc, dc), 0);
    let cast = |dc: &u32| -> Result<u32, i32> { Ok(*dc * 10) };
    assert_eq!(nod_d2d_begin_draw(&mut s, cast, |t: &u32| assert_eq!(*t, 50), dc), tag(1));
    let cleared = nod_d2d_clear(
        &mut s,
        cast,
        |_: &u32, c: Color| assert_eq!(c, Color { r: 1, g: 2, b: 3, a: 255 }),
        dc,
        tag(257),
        tag(2),
        tag(3),
        tag(255),
    );
    assert_eq!(cleared, tag(1));
    assert_eq!(nod_d2d_set_transform_identity(&mut s, cast, |_: &u32| (), dc), tag(1));
    assert_eq!(nod_d2d_end_draw(&mut s, cast, |_: &u32| Ok(()), dc), 0);
    assert_eq!(nod_d2d_end_draw(&mut s, cast, |_: &u32| Ok(()), 0), tag(NO_OBJECT));
    let broken = |_: &u32| -> Result<u32, i32> { Err(-7) };
    assert_eq!(nod_d2d_end_draw(&mut s, broken, |_: &u32| Ok(()), dc), tag(NO_OBJECT));
    assert_eq!(nod_com_last_hresult(&mut s), tag(0xffff_fff9));
    let brush = nod_d2d_create_solid_color_brush(
        &mut s,
        cast,
        |_: &u32, _: Color| Ok(7),
        dc,
        tag(1),
        tag(1),
        tag(1),
        tag(1),
    );
    let layout = tag(register(&mut s, ComKind::DWriteTextLayout, 8));
    let drawn = nod_d2d_draw_text_layout(
        &mut s,
        cast,
        |_: &u32, l: &u32, b: &u32, x: i64, y: i64| assert_eq!((*l, *b, x, y), (8, 7, -3, 4)),
        dc,
        signed(-3),
        signed(4),
        layout,
        brush,
    );
    assert_eq!(drawn, tag(1));
    let outline = nod_d2d_draw_rectangle(
        &mut s,
        cast,
        |_: &u32, _: &u32, r: Rect, stroke: u64| {
            assert_eq!(r, Rect { left: 1, top: 2, right: 3, bottom: -4 });
            assert_eq!(stroke, 15);
        },
        dc,
        signed(1),
        signed(2),
        signed(3),
        signed(-4),
        brush,
        tag(15),
    );
    assert_eq!(outline, tag(1));
    let filled = nod_d2d_fill_rectangle(
        &mut s,
        cast,
        |_: &u32, _: &u32, _: Rect| (),
        dc,
        0,
        0,
        0,
        0,
        layout,
    );
    assert_eq!(filled, 0);
}

#[test]
fn text_goes_over_in_utf16() {
    let mut s: ComState<u32> = ComState::new();
    let mut heap = Heap::new();
    let factory = tag(register(&mut s, ComKind::DWriteFactory, 1));
    let family = heap.alloc_text("Aé").raw();
    let locale = heap.alloc_text("en").raw();
    let format = nod_dwrite_create_text_format(
        &mut s,
        &heap,
        |_: &u32, d: &TextFormatDesc| {
            assert_eq!(d.family, vec![0x41, 0xe9, 0]);
            assert_eq!(d.locale, vec![0x65, 0x6e, 0]);
            assert_eq!(d.size_x100, 2400);
            Ok(2)
        },
        factory,
        family,
        tag(2400),
        locale,
    );
    assert_eq!(format, tag(2));
    let layout = nod_dwrite_create_text_layout(
        &mut s,
        &heap,
        |_: &u32, _: &u32, d: &TextLayoutDesc| {
            assert_eq!(d.text, vec![0x65, 0x6e]);
            assert_eq!((d.max_width, d.max_height), (300, 200));
            Ok(3)
        },
        factory,
        locale,
        format,
        tag(300),
        tag(200),
    );
    assert_eq!(layout, tag(3));
    let size = nod_dwrite_get_layout_metrics(
        &mut s,
        |_: &u32| Some(Extent { x: 10, y: 2 }),
        layout,
    );
    assert_eq!(size, tag((2 << 32) | 10));
    assert_eq!(nod_dwrite_get_layout_metrics(&mut s, |_: &u32| None, layout), 0);
    let place = nod_dwrite_hit_test_text_position(
        &mut s,
        |_: &u32, p: u32, trailing: bool| {
            assert_eq!((p, trailing), (4, true));
            Some(Extent { x: 7, y: 0 })
        },
        layout,
        tag(4),
        tag(1),
    );
    assert_eq!(place, tag(7));
    let hit = |trailing: bool| {
        move |_: &u32, x: i64, y: i64| {
            assert_eq!((x, y), (-1, 5));
            Some(HitTest { position: 6, length: 2, is_trailing: trailing })
        }
    };
    let at = nod_dwrite_hit_test_point(&mut s, hit(false), layout, signed(-1), signed(5));
    assert_eq!(at, tag(6));
    let behind = nod_dwrite_hit_test_point(&mut s, hit(true), layout, signed(-1), signed(5));
    assert_eq!(behind, tag(8));
    let spaced = nod_dwrite_set_line_spacing(
        &mut s,
        |_: &u32, spacing: u64, baseline: u64| (spacing, baseline) == (180, 140),
        format,
        tag(180),
        tag(140),
    );
    assert_eq!(spaced, tag(1));
    let brush = tag(register(&mut s, ComKind::D2DSolidColorBrush, 9));
    let coloured = nod_dwrite_set_drawing_effect(
        &mut s,
        |_: &u32, _: &u32, start: u32, length: u32| (start, length) == (1, 2),
        layout,
        brush,
        tag(1),
        tag(2),
    );
    assert_eq!(coloured, tag(1));
    let refused = nod_dwrite_set_drawing_effect(
        &mut s,
        |_: &u32, _: &u32, _: u32, _: u32| false,
        layout,
        brush,
        tag(1),
        tag(2),
    );
    assert_eq!(refused, tag(0));
}

#[test]
fn pixels_are_mapped_and_counted() {
    let mut s: ComState<u32> = ComState::new();
    let device = tag(register(&mut s, ComKind::D3D11Device, 1));
    let ctx = tag(register(&mut s, ComKind::D3D11DeviceContext, 2));
    let tex = tag(register(&mut s, ComKind::D3D11Texture2D, 3));
    let address = nod_d3d11_copy_to_staging_and_map(
        &mut s,
        |_: &u32, _: &u32, _: &u32, d: TextureDesc| {
            assert_eq!(d.usage, TextureUsage::Staging);
            Ok(Some((4, MappedPixels { address: 0x5000, row_pitch: 12 })))
        },
        device,
        ctx,
        tex,
        tag(2),
        tag(2),
    );
    assert_eq!(address, tag(0x5000));
    let staging = nod_d3d11_last_staging_handle(&s);
    assert_eq!(staging, tag(4));
    assert_eq!(nod_d3d11_last_mapped_row_pitch(&s), tag(12));
    assert_eq!(nod_d3d11_unmap(&mut s, |_: &u32, _: &u32| (), ctx, staging), tag(1));
    let failed = nod_d3d11_copy_to_staging_and_map(
        &mut s,
        |_: &u32, _: &u32, _: &u32, _: TextureDesc| Err(-1),
        device,
        ctx,
        tex,
        tag(2),
        tag(2),
    );
    assert_eq!(failed, 0);
    assert_eq!(nod_d3d11_last_staging_handle(&s), 0);
    assert_eq!(nod_d3d11_last_mapped_row_pitch(&s), 0);
    let mut pixels = vec![0u8; 24];
    pixels[2] = 1;
    pixels[5] = 200;
    pixels[12 + 6] = 255;
    let red = nod_count_non_zero_red(Some(&pixels), tag(2), tag(2), tag(12));
    assert_eq!(red, tag(2));
    assert_eq!(nod_count_non_zero_red(None, tag(2), tag(2), tag(12)), 0);
}
