use warp::image::{
    bgr_to_rgba, bgr_to_yuv, bgr_to_yuv_limited, bgr_to_yuv_lossy, encoder_frame, yuyv422_to_rgb_,
    FrameError, RGBBuf, YUVBuf,
};

#[test]
fn bgr_becomes_rgba() {
    assert_eq!(bgr_to_rgba(&[1, 2, 3, 4, 5, 6, 7]), vec![3, 2, 1, 255, 6, 5, 4, 255]);
}

#[test]
fn from_gbr_exchanges_samples() {
    let once = RGBBuf::from_gbr(&[1, 2, 3, 4], 1, 1).data;
    assert_eq!(once, vec![3, 2, 1, 4]);
    assert_eq!(RGBBuf::from_gbr(&once, 1, 1).data, vec![1, 2, 3, 4]);
}

fn luma(r: f32, g: f32, b: f32) -> u8 {
    (0.2578125 * r + 0.50390625 * g + 0.09765625 * b + 16.0) as u8
}

fn blue_difference(r: f32, g: f32, b: f32) -> u8 {
    (-0.1484375 * r + -0.2890625 * g + 0.4375 * b + 128.0) as u8
}

fn red_difference(r: f32, g: f32, b: f32) -> u8 {
    (0.4375 * r + -0.3671875 * g + -0.0703125 * b + 128.0) as u8
}

/// A picture whose samples take all sorts of values.
fn picture(width: usize, height: usize) -> Vec<u8> {
    (0..3 * width * height).map(|i| (i * 89 + i * i * 7) as u8).collect()
}

#[test]
fn planes_follow_the_float_formulas() {
    let (width, height) = (7, 6);
    let bgr = picture(width, height);
    let yuv = bgr_to_yuv(&bgr, width, height);
    assert_eq!(yuv, bgr_to_yuv_limited(&bgr, width, height));
    assert_eq!(yuv.len(), 3 * width * height / 2);
    let at = |x: usize, y: usize, c: usize| bgr[3 * (x + y * width) + c] as f32;
    let base_u = width * height;
    let base_v = base_u + base_u / 4;
    for y in 0..height {
        for x in 0..6 {
            let expected = luma(at(x, y, 2), at(x, y, 1), at(x, y, 0));
            assert_eq!(yuv[x + y * width], expected);
        }
        assert_eq!(yuv[6 + y * width], 0);
    }
    for j in 0..height / 2 {
        for i in 0..width / 2 {
            let mean = |c: usize| {
                (at(2 * i, 2 * j, c)
                    + at(2 * i, 2 * j + 1, c)
                    + at(2 * i + 1, 2 * j, c)
                    + at(2 * i + 1, 2 * j + 1, c))
                    / 4.0
            };
            let (b, g, r) = (mean(0), mean(1), mean(2));
            assert_eq!(yuv[base_u + i + j * 3], blue_difference(r, g, b));
            assert_eq!(yuv[base_v + i + j * 3], red_difference(r, g, b));
        }
    }
}

#[test]
fn doubled_planes_follow_the_float_formulas() {
    let (width, height) = (5, 3);
    let bgr = picture(width, height);
    let yuv = bgr_to_yuv_lossy(&bgr, width, height);
    assert_eq!(yuv.len(), 6 * width * height);
    for y in 0..height {
        for x in 0..width {
            let p = x + y * width;
            let (b, g, r) = (bgr[3 * p] as f32, bgr[3 * p + 1] as f32, bgr[3 * p + 2] as f32);
            for (dx, dy) in [(0, 0), (1, 0), (0, 1), (1, 1)] {
                assert_eq!(yuv[(2 * y + dy) * 2 * width + 2 * x + dx], luma(r, g, b));
            }
            assert_eq!(yuv[4 * width * height + p], blue_difference(r, g, b));
            assert_eq!(yuv[5 * width * height + p], red_difference(r, g, b));
        }
    }
}

#[test]
fn packed_samples_follow_the_float_formulas() {
    for y in (0..=255u8).step_by(17) {
        for u in (0..=255u8).step_by(5) {
            for v in (0..=255u8).step_by(3) {
                let (yf, uf, vf) = (y as f32, u as f32, v as f32);
                let r = yf + 1.370705 * (vf - 128.);
                let g = yf - 0.698001 * (vf - 128.) - 0.337633 * (uf - 128.);
                let b = yf + 1.732446 * (uf - 128.);
                let rgb = yuyv422_to_rgb_(&[y, u, 9, v, 1], false);
                assert_eq!(rgb.len(), 6);
                assert_eq!(rgb[..3], [r as u8, g as u8, b as u8]);
                let rgba = yuyv422_to_rgb_(&[9, u, y, v], true);
                assert_eq!(rgba.len(), 8);
                assert_eq!(rgba[4..], [r as u8, g as u8, b as u8, 255]);
            }
        }
    }
}

#[test]
fn black_and_white() {
    let white = bgr_to_yuv(&[255; 12], 2, 2);
    assert_eq!(white, vec![235, 235, 235, 235, 128, 128]);
    let black = bgr_to_yuv(&[0; 12], 2, 2);
    assert_eq!(black, vec![16, 16, 16, 16, 128, 128]);
}

#[test]
fn planes_of_a_buffer() {
    let mut buf = YUVBuf { yuv: (0..24).collect(), width: 4, height: 4 };
    assert_eq!(buf.y(), &(0..16).collect::<Vec<u8>>()[..]);
    assert_eq!(buf.u(), &[16, 17, 18, 19]);
    assert_eq!(buf.v(), &[20, 21, 22, 23]);
    assert_eq!(buf.linesize(0), Ok(4));
    assert_eq!(buf.linesize(2), Ok(1));
    assert_eq!(buf.linesize(3), Err(FrameError::InvalidIndex));
    assert_eq!((buf.y_stride(), buf.u_stride(), buf.v_stride()), (4, 2, 2));
    assert_eq!((buf.width(), buf.height(), buf.count()), (4, 4, 3));
    buf.as_mut_slice_inner(1).unwrap()[0] = 99;
    assert_eq!(buf.as_slice_inner(1), Ok(&[99, 17, 18, 19][..]));
    assert_eq!(buf.as_slice_inner(3), Err(FrameError::InvalidIndex));
    let short = YUVBuf { yuv: vec![1, 2, 3, 4], width: 2, height: 2 };
    assert_eq!(short.y(), &[1, 2, 3, 4]);
}

#[test]
fn frames_for_the_encoder() {
    assert!(encoder_frame(&[], 0, 0).is_none());
    let frame = encoder_frame(&[1, 2, 3], 1, 1).unwrap();
    assert_eq!((frame.width, frame.height, frame.yuv.len()), (2, 2, 6));
}

#[test]
fn rgb_buffers_have_one_plane_for_all() {
    let mut buf = RGBBuf::from_gbr(&[1, 2, 3, 4, 5, 6], 2, 1);
    assert_eq!(buf.linesize(2), Ok(2));
    assert_eq!(buf.count(), 3);
    assert_eq!(buf.as_slice_inner(2), Ok(&[3, 2, 1, 6, 5, 4][..]));
    buf.as_mut_slice_inner(0).unwrap()[0] = 9;
    assert_eq!(buf.data[0], 9);
    assert_eq!(buf.as_slice_inner(3), Err(FrameError::InvalidIndex));
}
