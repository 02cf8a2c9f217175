//! What the Raspberry Pi CSI camera backend runs: `rpicam-vid` (named
//! `libcamera-vid` on Bullseye and earlier), writing MJPEG to stdout, with
//! arguments built from the current camera settings.

use vstd::prelude::*;

use crate::decimal::{decimal_chars, decimal_string, lemma_decimal_chars_start_with_digit};
use crate::shared_types::VideoSettings;

verus! {

/// The camera tool to run: `rpicam-vid` if present, else `libcamera-vid`
/// if present, else `rpicam-vid` (whose absence the spawn then reports).
pub fn camera_binary(rpicam_found: bool, libcamera_found: bool) -> (r: &'static str)
    ensures
        r@ == if !rpicam_found && libcamera_found { "libcamera-vid"@ } else { "rpicam-vid"@ },
{
    if rpicam_found {
        "rpicam-vid"
    } else if libcamera_found {
        "libcamera-vid"
    } else {
        "rpicam-vid"
    }
}

/// Why `s` can't be captured with, if it can't.
pub open spec fn settings_error(s: VideoSettings) -> Option<Seq<char>> {
    if s.width == 0 || s.height == 0 {
        Some("width/height must be > 0"@)
    } else if s.fps == 0 {
        Some("fps must be > 0"@)
    } else {
        None
    }
}

/// Checks the settings the backend is constructed with.
pub fn check_settings(s: &VideoSettings) -> (r: Result<(), String>)
    ensures
        match r {
            Ok(()) => settings_error(*s) is None,
            Err(msg) => settings_error(*s) == Some(msg@),
        },
{
    if !(s.width > 0 && s.height > 0) {
        return Err("width/height must be > 0".to_owned());
    }
    if !(s.fps > 0) {
        return Err("fps must be > 0".to_owned());
    }
    Ok(())
}

/// The command line for `s`, after the binary's name.
pub open spec fn rpicam_arg_list(s: VideoSettings) -> Seq<Seq<char>> {
    seq![
        "-t"@, "0"@, "--codec"@, "mjpeg"@, "-o"@, "-"@, "-n"@, "--flush"@,
        "--width"@, decimal_chars(s.width as nat),
        "--height"@, decimal_chars(s.height as nat),
        "--framerate"@, decimal_chars(s.fps as nat),
        "--quality"@, decimal_chars(s.quality as nat),
    ] + (if s.hflip { seq!["--hflip"@] } else { Seq::empty() }) + (if s.vflip {
        seq!["--vflip"@]
    } else {
        Seq::empty()
    })
}

/// The arguments for the current settings, so both the first launch and
/// config-change restarts go through one code path: run indefinitely, MJPEG
/// to stdout, no preview window, each frame flushed immediately.
pub fn rpicam_args(s: &VideoSettings) -> (args: Vec<String>)
    ensures
        args@.map_values(|a: String| a@) == rpicam_arg_list(*s),
{
    let mut args: Vec<String> = Vec::new();
    args.push("-t".to_owned());
    args.push("0".to_owned()); // run indefinitely
    args.push("--codec".to_owned());
    args.push("mjpeg".to_owned());
    args.push("-o".to_owned());
    args.push("-".to_owned()); // write to stdout
    args.push("-n".to_owned()); // no preview window
    args.push("--flush".to_owned()); // push each frame out immediately
    args.push("--width".to_owned());
    args.push(decimal_string(s.width as u64));
    args.push("--height".to_owned());
    args.push(decimal_string(s.height as u64));
    args.push("--framerate".to_owned());
    args.push(decimal_string(s.fps as u64));
    args.push("--quality".to_owned());
    args.push(decimal_string(s.quality as u64));
    if s.hflip {
        args.push("--hflip".to_owned());
    }
    if s.vflip {
        args.push("--vflip".to_owned());
    }
    assert(args@.map_values(|a: String| a@) =~= rpicam_arg_list(*s));
    args
}

/// The camera is mirrored exactly as asked: `--hflip` is among the
/// arguments exactly when the settings ask for a horizontal flip, and
/// `--vflip` exactly when they ask for a vertical one.
pub proof fn law_flips_follow_the_settings(s: VideoSettings)
    ensures
        rpicam_arg_list(s).contains("--hflip"@) <==> s.hflip,
        rpicam_arg_list(s).contains("--vflip"@) <==> s.vflip,
{
    reveal_strlit("-t");
    reveal_strlit("0");
    reveal_strlit("--codec");
    reveal_strlit("mjpeg");
    reveal_strlit("-o");
    reveal_strlit("-");
    reveal_strlit("-n");
    reveal_strlit("--flush");
    reveal_strlit("--width");
    reveal_strlit("--height");
    reveal_strlit("--framerate");
    reveal_strlit("--quality");
    reveal_strlit("--hflip");
    reveal_strlit("--vflip");
    lemma_decimal_chars_start_with_digit(s.width as nat);
    lemma_decimal_chars_start_with_digit(s.height as nat);
    lemma_decimal_chars_start_with_digit(s.fps as nat);
    lemma_decimal_chars_start_with_digit(s.quality as nat);
    let args = rpicam_arg_list(s);
    assert("--hflip"@ != "--vflip"@) by {
        assert("--hflip"@[2] != "--vflip"@[2]);
    }
    assert forall|i: int| 0 <= i < 16 implies args[i] != "--hflip"@ && args[i] != "--vflip"@ by {
        if i == 9 || i == 11 || i == 13 || i == 15 {
            assert(args[i][0] != "--hflip"@[0]);
        } else {
            assert(args[i].len() != 7 || args[i][2] != "--hflip"@[2] || args[i][3]
                != "--hflip"@[3]);
            assert(args[i].len() != 7 || args[i][2] != "--vflip"@[2] || args[i][3]
                != "--vflip"@[3]);
        }
    }
    if s.hflip {
        assert(args[16] == "--hflip"@);
    }
    if s.vflip {
        let k = if s.hflip { 17int } else { 16int };
        assert(args[k] == "--vflip"@);
    }
    if args.contains("--hflip"@) {
        let i = choose|i: int| 0 <= i < args.len() && args[i] == "--hflip"@;
        if !s.hflip {
            assert(i >= 16);
            assert(args[i] == "--vflip"@);
        }
    }
    if args.contains("--vflip"@) {
        let i = choose|i: int| 0 <= i < args.len() && args[i] == "--vflip"@;
        if !s.vflip {
            assert(i >= 16);
            assert(args[i] == "--hflip"@);
        }
    }
}

/// Each sizing option appears once and is followed by its setting written
/// in decimal: `--width` by the width, `--height` by the height,
/// `--framerate` by the frame rate and `--quality` by the JPEG quality;
/// and the camera writes MJPEG to stdout (`--codec mjpeg`, `-o -`).
pub proof fn law_options_carry_their_settings(s: VideoSettings)
    ensures
        ({
            let args = rpicam_arg_list(s);
            &&& forall|i: int|
                0 <= i < args.len() && #[trigger] args[i] == "--width"@ ==> i + 1 < args.len()
                    && args[i + 1] == decimal_chars(s.width as nat)
            &&& forall|i: int|
                0 <= i < args.len() && #[trigger] args[i] == "--height"@ ==> i + 1 < args.len()
                    && args[i + 1] == decimal_chars(s.height as nat)
            &&& forall|i: int|
                0 <= i < args.len() && #[trigger] args[i] == "--framerate"@ ==> i + 1 < args.len()
                    && args[i + 1] == decimal_chars(s.fps as nat)
            &&& forall|i: int|
                0 <= i < args.len() && #[trigger] args[i] == "--quality"@ ==> i + 1 < args.len()
                    && args[i + 1] == decimal_chars(s.quality as nat)
            &&& forall|i: int|
                0 <= i < args.len() && #[trigger] args[i] == "--codec"@ ==> i + 1 < args.len()
                    && args[i + 1] == "mjpeg"@
            &&& forall|i: int|
                0 <= i < args.len() && #[trigger] args[i] == "-o"@ ==> i + 1 < args.len()
                    && args[i + 1] == "-"@
            &&& args.contains("--width"@)
            &&& args.contains("--height"@)
            &&& args.contains("--framerate"@)
            &&& args.contains("--quality"@)
        }),
{
    reveal_strlit("-t");
    reveal_strlit("0");
    reveal_strlit("--codec");
    reveal_strlit("mjpeg");
    reveal_strlit("-o");
    reveal_strlit("-");
    reveal_strlit("-n");
    reveal_strlit("--flush");
    reveal_strlit("--width");
    reveal_strlit("--height");
    reveal_strlit("--framerate");
    reveal_strlit("--quality");
    reveal_strlit("--hflip");
    reveal_strlit("--vflip");
    lemma_decimal_chars_start_with_digit(s.width as nat);
    lemma_decimal_chars_start_with_digit(s.height as nat);
    lemma_decimal_chars_start_with_digit(s.fps as nat);
    lemma_decimal_chars_start_with_digit(s.quality as nat);
    let args = rpicam_arg_list(s);
    assert forall|i: int| 0 <= i < args.len() && #[trigger] args[i] == "--width"@ implies i == 8 by {
        if i == 0 {
            assert(args[i].len() != "--width"@.len());
        } else if i == 1 {
            assert(args[i].len() != "--width"@.len());
        } else if i == 2 {
            assert(args[i][2] != "--width"@[2]);
        } else if i == 3 {
            assert(args[i].len() != "--width"@.len());
        } else if i == 4 {
            assert(args[i].len() != "--width"@.len());
        } else if i == 5 {
            assert(args[i].len() != "--width"@.len());
        } else if i == 6 {
            assert(args[i].len() != "--width"@.len());
        } else if i == 7 {
            assert(args[i][2] != "--width"@[2]);
        } else if i == 9 {
            assert(args[i][0] != "--width"@[0]);
        } else if i == 10 {
            assert(args[i].len() != "--width"@.len());
        } else if i == 11 {
            assert(args[i][0] != "--width"@[0]);
        } else if i == 12 {
            assert(args[i].len() != "--width"@.len());
        } else if i == 13 {
            assert(args[i][0] != "--width"@[0]);
        } else if i == 14 {
            assert(args[i].len() != "--width"@.len());
        } else if i == 15 {
            assert(args[i][0] != "--width"@[0]);
        } else if i >= 16 {
            assert(args[i] == "--hflip"@ || args[i] == "--vflip"@);
            assert(args[i][2] != "--width"@[2]);
        }
    }
    assert forall|i: int| 0 <= i < args.len() && #[trigger] args[i] == "--height"@ implies i == 10 by {
        if i == 0 {
            assert(args[i].len() != "--height"@.len());
        } else if i == 1 {
            assert(args[i].len() != "--height"@.len());
        } else if i == 2 {
            assert(args[i].len() != "--height"@.len());
        } else if i == 3 {
            assert(args[i].len() != "--height"@.len());
        } else if i == 4 {
            assert(args[i].len() != "--height"@.len());
        } else if i == 5 {
            assert(args[i].len() != "--height"@.len());
        } else if i == 6 {
            assert(args[i].len() != "--height"@.len());
        } else if i == 7 {
            assert(args[i].len() != "--height"@.len());
        } else if i == 8 {
            assert(args[i].len() != "--height"@.len());
        } else if i == 9 {
            assert(args[i][0] != "--height"@[0]);
        } else if i == 11 {
            assert(args[i][0] != "--height"@[0]);
        } else if i == 12 {
            assert(args[i].len() != "--height"@.len());
        } else if i == 13 {
            assert(args[i][0] != "--height"@[0]);
        } else if i == 14 {
            assert(args[i].len() != "--height"@.len());
        } else if i == 15 {
            assert(args[i][0] != "--height"@[0]);
        } else if i >= 16 {
            assert(args[i] == "--hflip"@ || args[i] == "--vflip"@);
            assert(args[i].len() != "--height"@.len());
        }
    }
    assert forall|i: int| 0 <= i < args.len() && #[trigger] args[i] == "--framerate"@ implies i == 12 by {
        if i == 0 {
            assert(args[i].len() != "--framerate"@.len());
        } else if i == 1 {
            assert(args[i].len() != "--framerate"@.len());
        } else if i == 2 {
            assert(args[i].len() != "--framerate"@.len());
        } else if i == 3 {
            assert(args[i].len() != "--framerate"@.len());
        } else if i == 4 {
            assert(args[i].len() != "--framerate"@.len());
        } else if i == 5 {
            assert(args[i].len() != "--framerate"@.len());
        } else if i == 6 {
            assert(args[i].len() != "--framerate"@.len());
        } else if i == 7 {
            assert(args[i].len() != "--framerate"@.len());
        } else if i == 8 {
            assert(args[i].len() != "--framerate"@.len());
        } else if i == 9 {
            assert(args[i][0] != "--framerate"@[0]);
        } else if i == 10 {
            assert(args[i].len() != "--framerate"@.len());
        } else if i == 11 {
            assert(args[i][0] != "--framerate"@[0]);
        } else if i == 13 {
            assert(args[i][0] != "--framerate"@[0]);
        } else if i == 14 {
            assert(args[i].len() != "--framerate"@.len());
        } else if i == 15 {
            assert(args[i][0] != "--framerate"@[0]);
        } else if i >= 16 {
            assert(args[i] == "--hflip"@ || args[i] == "--vflip"@);
            assert(args[i].len() != "--framerate"@.len());
        }
    }
    assert forall|i: int| 0 <= i < args.len() && #[trigger] args[i] == "--quality"@ implies i == 14 by {
        if i == 0 {
            assert(args[i].len() != "--quality"@.len());
        } else if i == 1 {
            assert(args[i].len() != "--quality"@.len());
        } else if i == 2 {
            assert(args[i].len() != "--quality"@.len());
        } else if i == 3 {
            assert(args[i].len() != "--quality"@.len());
        } else if i == 4 {
            assert(args[i].len() != "--quality"@.len());
        } else if i == 5 {
            assert(args[i].len() != "--quality"@.len());
        } else if i == 6 {
            assert(args[i].len() != "--quality"@.len());
        } else if i == 7 {
            assert(args[i].len() != "--quality"@.len());
        } else if i == 8 {
            assert(args[i].len() != "--quality"@.len());
        } else if i == 9 {
            assert(args[i][0] != "--quality"@[0]);
        } else if i == 10 {
            assert(args[i].len() != "--quality"@.len());
        } else if i == 11 {
            assert(args[i][0] != "--quality"@[0]);
        } else if i == 12 {
            assert(args[i].len() != "--quality"@.len());
        } else if i == 13 {
            assert(args[i][0] != "--quality"@[0]);
        } else if i == 15 {
            assert(args[i][0] != "--quality"@[0]);
        } else if i >= 16 {
            assert(args[i] == "--hflip"@ || args[i] == "--vflip"@);
            assert(args[i].len() != "--quality"@.len());
        }
    }
    assert forall|i: int| 0 <= i < args.len() && #[trigger] args[i] == "--codec"@ implies i == 2 by {
        if i == 0 {
            assert(args[i].len() != "--codec"@.len());
        } else if i == 1 {
            assert(args[i].len() != "--codec"@.len());
        } else if i == 3 {
            assert(args[i].len() != "--codec"@.len());
        } else if i == 4 {
            assert(args[i].len() != "--codec"@.len());
        } else if i == 5 {
            assert(args[i].len() != "--codec"@.len());
        } else if i == 6 {
            assert(args[i].len() != "--codec"@.len());
        } else if i == 7 {
            assert(args[i][2] != "--codec"@[2]);
        } else if i == 8 {
            assert(args[i][2] != "--codec"@[2]);
        } else if i == 9 {
            assert(args[i][0] != "--codec"@[0]);
        } else if i == 10 {
            assert(args[i].len() != "--codec"@.len());
        } else if i == 11 {
            assert(args[i][0] != "--codec"@[0]);
        } else if i == 12 {
            assert(args[i].len() != "--codec"@.len());
        } else if i == 13 {
            assert(args[i][0] != "--codec"@[0]);
        } else if i == 14 {
            assert(args[i].len() != "--codec"@.len());
        } else if i == 15 {
            assert(args[i][0] != "--codec"@[0]);
        } else if i >= 16 {
            assert(args[i] == "--hflip"@ || args[i] == "--vflip"@);
            assert(args[i][2] != "--codec"@[2]);
        }
    }
    assert forall|i: int| 0 <= i < args.len() && #[trigger] args[i] == "-o"@ implies i == 4 by {
        if i == 0 {
            assert(args[i][1] != "-o"@[1]);
        } else if i == 1 {
            assert(args[i].len() != "-o"@.len());
        } else if i == 2 {
            assert(args[i].len() != "-o"@.len());
        } else if i == 3 {
            assert(args[i].len() != "-o"@.len());
        } else if i == 5 {
            assert(args[i].len() != "-o"@.len());
        } else if i == 6 {
            assert(args[i][1] != "-o"@[1]);
        } else if i == 7 {
            assert(args[i].len() != "-o"@.len());
        } else if i == 8 {
            assert(args[i].len() != "-o"@.len());
        } else if i == 9 {
            assert(args[i][0] != "-o"@[0]);
        } else if i == 10 {
            assert(args[i].len() != "-o"@.len());
        } else if i == 11 {
            assert(args[i][0] != "-o"@[0]);
        } else if i == 12 {
            assert(args[i].len() != "-o"@.len());
        } else if i == 13 {
            assert(args[i][0] != "-o"@[0]);
        } else if i == 14 {
            assert(args[i].len() != "-o"@.len());
        } else if i == 15 {
            assert(args[i][0] != "-o"@[0]);
        } else if i >= 16 {
            assert(args[i] == "--hflip"@ || args[i] == "--vflip"@);
            assert(args[i].len() != "-o"@.len());
        }
    }
    assert(args[8] == "--width"@ && args[10] == "--height"@ && args[12] == "--framerate"@ && args[14] == "--quality"@);
}

} // verus!
