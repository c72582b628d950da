use std::collections::BTreeMap;
use std::io::Cursor;

use photo_browser::delete::{delete_photo, DeleteAction, DeleteReply, DeleteResult};
use photo_browser::images::{generate_thumb, thumb_of, thumb_of_decoded};
use photo_browser::photos::{
    full_reply, full_reply_of_type, list_photos, open_folder, open_target, photos_response, serve_full,
};
use photo_browser::reply::{json_err, Place, Refusal};
use photo_browser::session::{current, resolve_session, AppState, Session};
use photo_browser::sorting::SortReport;
use photo_browser::thumbs::{is_fresh, serve_thumb, Stamp, ThumbAction, ThumbReply};

fn session(raws: bool) -> Session {
    Session {
        root: "/trip".to_string(),
        jpeg_dir: "jpegs".to_string(),
        raw_dir: if raws { Some("raws".to_string()) } else { None },
        video_dir: None,
        thumb_cache: ".thumb_cache".to_string(),
        trash_dir: "_deleted".to_string(),
    }
}

fn strings(list: &[&str]) -> Vec<String> {
    list.iter().map(|s| s.to_string()).collect()
}

fn refused(r: &Refusal) -> (u16, &str) {
    (r.status, r.message.as_str())
}

#[test]
fn photos_are_listed_in_order() {
    let names = strings(&["b.JPG", "a.jpg", "x.png", "C.jpeg", "notes", "a.jpg.txt"]);
    let r = photos_response(&session(true), &names);
    assert!(r.loaded);
    assert_eq!(r.files, strings(&["C.jpeg", "a.jpg", "b.JPG"]));
    assert_eq!(r.root, "/trip");
    assert!(r.raw_available);
    assert!(!r.video_available);
}

#[test]
fn nothing_is_listed_without_a_folder() {
    let r = list_photos(&None, &strings(&["a.jpg"]));
    assert!(!r.loaded);
    assert!(r.files.is_empty());
    assert_eq!(r.root, "");
    assert!(!r.raw_available && !r.video_available);
}

#[test]
fn the_list_after_an_opening_is_that_of_the_opening() {
    let names = strings(&["b.jpg", "a.jpg"]);
    let report = SortReport { jpegs: 2, raws: 0, videos: 0 };
    let mut state = AppState { session: None };
    let opened = open_folder(&mut state, Ok(Ok((session(false), report))), &names).unwrap();
    assert!(opened.ok);
    assert_eq!(opened.report, report);
    let listed = list_photos(&current(&state), &names);
    assert_eq!(listed.files, opened.photos.files);
    assert_eq!(listed.files, strings(&["a.jpg", "b.jpg"]));
    assert_eq!(listed.root, opened.photos.root);
    assert!(listed.loaded && opened.photos.loaded);
}

#[test]
fn a_failed_opening_keeps_the_open_folder() {
    let mut state = AppState { session: Some(session(true)) };
    let e = open_folder(&mut state, Ok(Err("read /x: gone".to_string())), &Vec::new()).unwrap_err();
    assert_eq!((e.status, e.ok, e.error.as_str()), (400, false, "read /x: gone"));
    let e = open_folder(&mut state, Err("panicked".to_string()), &Vec::new()).unwrap_err();
    assert_eq!((e.status, e.ok, e.error.as_str()), (400, false, "task failed: panicked"));
    assert_eq!(current(&state).unwrap().root, "/trip");
}

#[test]
fn only_folders_can_be_opened() {
    assert!(open_target(Ok(true)).is_ok());
    assert_eq!(open_target(Ok(false)).unwrap_err().error, "not a directory");
    let e = open_target(Err("No such file".to_string())).unwrap_err();
    assert_eq!(e.error, "invalid path: No such file");
    assert_eq!(e.status, 400);
    assert!(!json_err("why".to_string()).ok);
}

#[test]
fn a_session_is_cloned_whole() {
    let s = resolve_session("/r".to_string(), &Vec::new());
    let c = s.clone();
    assert_eq!(c.root, "/r");
    assert_eq!(c.jpeg_dir, "jpegs");
    assert_eq!(c.raw_dir, None);
    assert_eq!(c.thumb_cache, ".thumb_cache");
    assert_eq!(c.trash_dir, "_deleted");
}

#[test]
fn requests_are_refused_without_a_folder_or_a_safe_name() {
    let none: Option<Session> = None;
    let some = Some(session(true));
    assert_eq!(refused(&serve_full(&none, "a.jpg").unwrap_err()), (409, "no folder selected"));
    assert_eq!(refused(&serve_full(&none, "../a").unwrap_err()), (409, "no folder selected"));
    assert_eq!(refused(&serve_full(&some, "../a").unwrap_err()), (400, "bad name"));
    assert_eq!(refused(&serve_thumb(&none, "a.jpg").err().unwrap()), (409, "no folder selected"));
    assert_eq!(refused(&serve_thumb(&some, "a/b").err().unwrap()), (400, "bad name"));
    assert_eq!(refused(&delete_photo(&none, "a.jpg").err().unwrap()), (409, "no folder selected"));
    assert_eq!(refused(&delete_photo(&some, "a\\b").err().unwrap()), (400, "bad name"));
}

#[test]
fn a_photo_is_sent_with_its_type() {
    let p = serve_full(&Some(session(false)), "a.JPG").unwrap();
    assert_eq!((p.dir.as_str(), p.name.as_str()), ("jpegs", "a.JPG"));
    let r = full_reply(&p, Some(vec![1, 2, 3])).unwrap();
    assert_eq!(r.content_type, "image/jpeg");
    assert_eq!(r.cache_control, "public, max-age=3600");
    assert_eq!(r.body, vec![1, 2, 3]);
}

#[test]
fn types_are_guessed_from_names() {
    let kind = |n: &str| full_reply(&Place::new("jpegs", n), Some(Vec::new())).unwrap().content_type;
    assert_eq!(kind("a.png"), "image/png");
    assert_eq!(kind("a.jpeg"), "image/jpeg");
    assert_eq!(kind("a.JpG"), "image/jpeg");
    assert_eq!(kind("noext"), "application/octet-stream");
    assert_eq!(kind(".jpg"), "application/octet-stream");
    assert_eq!(kind(""), "application/octet-stream");
    assert_eq!(kind("a.unheardof"), "application/octet-stream");
}

#[test]
fn a_photo_that_cannot_be_read_is_not_found() {
    let e = full_reply(&Place::new("jpegs", "a.jpg"), None).unwrap_err();
    assert_eq!(refused(&e), (404, "not found"));
    let r = full_reply_of_type("text/plain".to_string(), Some(vec![9])).unwrap();
    assert_eq!((r.content_type.as_str(), r.body), ("text/plain", vec![9]));
}

fn stamp(secs: i64, nanos: u32) -> Option<Option<Stamp>> {
    Some(Some(Stamp { secs, nanos }))
}

#[test]
fn a_thumbnail_is_fresh_unless_older_than_its_photo() {
    assert!(is_fresh(stamp(2, 0), stamp(1, 999)));
    assert!(is_fresh(stamp(1, 5), stamp(1, 5)));
    assert!(!is_fresh(stamp(1, 4), stamp(1, 5)));
    assert!(!is_fresh(stamp(-2, 0), stamp(-1, 0)));
    assert!(!is_fresh(None, stamp(1, 0)));
    assert!(!is_fresh(stamp(1, 0), None));
    assert!(is_fresh(Some(None), Some(None)));
    assert!(is_fresh(stamp(1, 0), Some(None)));
    assert!(!is_fresh(Some(None), stamp(1, 0)));
}

#[test]
fn a_fresh_thumbnail_is_sent_as_it_is() {
    let t = serve_thumb(&Some(session(false)), "a.jpg").unwrap();
    assert_eq!((t.src().dir.as_str(), t.src().name.as_str()), ("jpegs", "a.jpg"));
    assert_eq!((t.thumb().dir.as_str(), t.thumb().name.as_str()), (".thumb_cache", "a.jpg.thumb.jpg"));
    assert_eq!(t.action(), ThumbAction::Stat);
    let t = t.step(ThumbReply::Stated(stamp(2, 0), stamp(1, 0)));
    assert_eq!(t.action(), ThumbAction::Read);
    let t = t.step(ThumbReply::Read(Some(vec![7])));
    assert_eq!(t.action(), ThumbAction::Finished);
    let r = t.result().unwrap().unwrap();
    assert_eq!(r.content_type, "image/jpeg");
    assert_eq!(r.cache_control, "public, max-age=86400");
    assert_eq!(r.body, vec![7]);
}

#[test]
fn a_stale_thumbnail_is_made_anew() {
    let t = serve_thumb(&Some(session(false)), "a.jpg").unwrap();
    let t = t.step(ThumbReply::Stated(None, stamp(1, 0)));
    assert_eq!(t.action(), ThumbAction::Generate);
    let t = t.step(ThumbReply::Read(Some(vec![1])));
    assert_eq!(t.action(), ThumbAction::Generate);
    let t = t.step(ThumbReply::Generated(Ok(Ok(()))));
    assert_eq!(t.action(), ThumbAction::Read);
    let e = t.step(ThumbReply::Read(None)).result().unwrap().unwrap_err();
    assert_eq!(refused(&e), (404, "not found"));
}

#[test]
fn a_thumbnail_that_cannot_be_made_is_an_error() {
    let start = || {
        let t = serve_thumb(&Some(session(false)), "a.jpg").unwrap();
        t.step(ThumbReply::Stated(None, None))
    };
    let e = start().step(ThumbReply::Generated(Ok(Err("bad".to_string())))).result().unwrap().unwrap_err();
    assert_eq!(refused(&e), (500, "thumb error: bad"));
    let e = start().step(ThumbReply::Generated(Err("gone".to_string()))).result().unwrap().unwrap_err();
    assert_eq!(refused(&e), (500, "join error: gone"));
    assert!(start().result().is_none());
}

fn picture(width: u32, height: u32, format: image::ImageFormat) -> Vec<u8> {
    let img = image::RgbImage::from_fn(width, height, |x, y| image::Rgb([(x % 256) as u8, (y % 256) as u8, 90]));
    let mut bytes: Vec<u8> = Vec::new();
    img.write_to(&mut Cursor::new(&mut bytes), format).unwrap();
    bytes
}

fn size_of(jpeg: &[u8]) -> (u32, u32) {
    let img = image::load_from_memory_with_format(jpeg, image::ImageFormat::Jpeg).unwrap();
    (img.width(), img.height())
}

#[test]
fn a_thumbnail_fits_its_size() {
    let photo = picture(1024, 256, image::ImageFormat::Jpeg);
    assert_eq!(size_of(&generate_thumb("a.jpg", &photo).unwrap()), (512, 128));
    let photo = picture(300, 900, image::ImageFormat::Png);
    assert_eq!(size_of(&generate_thumb("a.PNG", &photo).unwrap()), (171, 512));
    let small = picture(64, 64, image::ImageFormat::Png);
    assert_eq!(size_of(&generate_thumb("a.png", &small).unwrap()), (512, 512));
    let small = picture(100, 50, image::ImageFormat::Jpeg);
    assert_eq!(size_of(&generate_thumb("a.jpeg", &small).unwrap()), (512, 256));
    let thin = picture(2000, 1, image::ImageFormat::Png);
    assert_eq!(size_of(&generate_thumb("a.png", &thin).unwrap()), (512, 1));
}

#[test]
fn a_half_is_rounded_upwards() {
    let size = |w: u32, h: u32| size_of(&thumb_of(&image::DynamicImage::new_luma8(w, h)).unwrap());
    assert_eq!(size(1024, 513), (512, 257));
    assert_eq!(size(513, 1024), (257, 512));
    assert_eq!(size(2048, 1), (512, 1));
    assert_eq!(size(3072, 9), (512, 2));
    assert_eq!(size(7168, 21), (512, 2));
    assert_eq!(size(65536, 192), (512, 2));
    assert_eq!(size(5120, 14), (512, 1));
    assert_eq!(size(50175, 147), (512, 2));
}

#[test]
fn halves_come_out_as_they_are_stated() {
    for longer in (1024..=65535u32).step_by(1024).filter(|l| *l != 49 * 1024) {
        for odd in (1..1024u32).step_by(2) {
            let side = longer / 1024 * odd;
            let computed = (f64::from(side) * (512.0 / f64::from(longer))).round();
            assert_eq!(computed, f64::from((odd + 1) / 2), "{longer} {side}");
        }
    }
}

#[test]
fn a_thumbnail_is_what_the_image_crate_makes_of_the_photo() {
    let photo = picture(700, 500, image::ImageFormat::Jpeg);
    let img = image::load_from_memory_with_format(&photo, image::ImageFormat::Jpeg).unwrap();
    let mut expected: Vec<u8> = Vec::new();
    img.resize(512, 512, image::imageops::FilterType::Triangle)
        .to_rgb8()
        .write_to(&mut Cursor::new(&mut expected), image::ImageFormat::Jpeg)
        .unwrap();
    assert_eq!(generate_thumb("a.jpg", &photo).unwrap(), expected);
    assert_eq!(thumb_of(&img).unwrap(), expected);
    assert_eq!(thumb_of_decoded(Ok(img)).unwrap(), expected);
    assert_eq!(thumb_of_decoded(Err("bad".to_string())).unwrap_err(), "bad");
}

#[test]
fn images_of_other_colours_become_jpegs_too() {
    let img = image::DynamicImage::ImageRgba8(image::RgbaImage::new(10, 20));
    assert_eq!(size_of(&thumb_of(&img).unwrap()), (256, 512));
    let img = image::DynamicImage::ImageLuma16(image::ImageBuffer::new(512, 512));
    assert_eq!(size_of(&thumb_of(&img).unwrap()), (512, 512));
}

#[test]
fn all_extensions_of_images_are_known() {
    let photo = picture(8, 8, image::ImageFormat::Png);
    for e in ["jpg", "JPEG", "jfif", "png", "apng", "gif", "webp", "tif", "tiff", "tga", "dds", "bmp"] {
        let r = generate_thumb(&format!("/p/a.{e}"), &photo);
        assert_eq!(r.is_ok(), e == "png" || e == "apng", "{e}");
        assert!(!r.err().unwrap_or_default().contains("file extension"), "{e}");
    }
    for e in ["ico", "hdr", "exr", "pbm", "pam", "ppm", "pgm", "pnm", "ff", "qoi", "avif"] {
        let m = generate_thumb(&format!("/p/a.{e}"), &photo).unwrap_err();
        assert!(m.contains("is not supported"), "{e}");
    }
}

#[test]
fn a_photo_that_cannot_be_decoded_has_no_thumbnail() {
    let photo = picture(8, 8, image::ImageFormat::Png);
    assert!(generate_thumb("a.jpg", &photo).is_err());
    assert!(generate_thumb("a.png", &vec![1, 2, 3]).is_err());
    assert_eq!(
        generate_thumb("a.xyz", &photo).unwrap_err(),
        image::ImageFormat::from_path("a.xyz").unwrap_err().to_string()
    );
    assert_eq!(
        generate_thumb("a.xyz", &photo).unwrap_err(),
        "The file extension `.\"xyz\"` was not recognized as an image format"
    );
    assert_eq!(
        generate_thumb("a.x\\y", &photo).unwrap_err(),
        "The file extension `.\"x\\\\y\"` was not recognized as an image format"
    );
    assert_eq!(generate_thumb("a.tif", &photo).unwrap_err(), "The image format Tiff is not supported");
    let unknown = "The image format could not be determined";
    assert_eq!(image::ImageFormat::from_path("").unwrap_err().to_string(), unknown);
    assert_eq!(generate_thumb("noext", &photo).unwrap_err(), unknown);
    assert_eq!(generate_thumb("a.png.", &photo).unwrap_err(), unknown);
    assert_eq!(generate_thumb("a.p/ng", &photo).unwrap_err(), unknown);
}

/// Files in memory, by folder and name.
#[derive(Clone, Debug, Default, PartialEq)]
struct Disk {
    files: BTreeMap<(String, String), u32>,
    stuck: Vec<(String, String)>,
    log: Vec<String>,
}

impl Disk {
    fn with(files: &[(&str, &str)]) -> Disk {
        let mut d = Disk::default();
        for (i, (dir, name)) in files.iter().enumerate() {
            d.files.insert((dir.to_string(), name.to_string()), i as u32);
        }
        d
    }

    fn has(&self, dir: &str, name: &str) -> bool {
        self.files.contains_key(&(dir.to_string(), name.to_string()))
    }
}

fn delete(disk: &mut Disk, session: Session, name: &str) -> Result<DeleteResult, Refusal> {
    let key = |p: &Place| (p.dir.clone(), p.name.clone());
    let mut run = delete_photo(&Some(session), name)?;
    loop {
        let reply = match run.action() {
            DeleteAction::MakeDir(d) => {
                assert_eq!(d, "_deleted");
                DeleteReply::Made(Ok(()))
            }
            DeleteAction::Probe(p) => {
                disk.log.push(format!("{}/{}", p.dir, p.name));
                DeleteReply::Probed(disk.files.contains_key(&key(&p)))
            }
            DeleteAction::Rename(p, q) => {
                assert_eq!(q.dir, "_deleted");
                assert_eq!(q.name, p.name);
                if disk.stuck.contains(&key(&p)) {
                    DeleteReply::Renamed(false)
                } else {
                    let held = disk.files.remove(&key(&p)).unwrap();
                    disk.files.insert(key(&q), held);
                    DeleteReply::Renamed(true)
                }
            }
            DeleteAction::Remove(p) => {
                if !disk.stuck.contains(&key(&p)) {
                    disk.files.remove(&key(&p));
                }
                DeleteReply::Removed
            }
            DeleteAction::Finished => return run.result().unwrap(),
        };
        run = run.step(reply);
    }
}

#[test]
fn a_deleted_photo_takes_its_raw_file_along() {
    let mut d = Disk::with(&[
        ("jpegs", "a.JPG"),
        ("raws", "a.nef"),
        ("raws", "a.cr2"),
        ("raws", "b.cr2"),
        (".thumb_cache", "a.JPG.thumb.jpg"),
    ]);
    let r = delete(&mut d, session(true), "a.JPG").unwrap();
    assert!(r.ok);
    assert_eq!(r.deleted, strings(&["a.JPG", "a.cr2"]));
    assert!(d.has("_deleted", "a.JPG") && d.has("_deleted", "a.cr2"));
    assert!(d.has("raws", "a.nef") && d.has("raws", "b.cr2"));
    assert!(!d.has("jpegs", "a.JPG") && !d.has(".thumb_cache", "a.JPG.thumb.jpg"));
    assert_eq!(d.log, strings(&["jpegs/a.JPG", "raws/a.ARW", "raws/a.arw", "raws/a.CR2", "raws/a.cr2"]));
}

#[test]
fn a_deleted_photo_leaves_the_list() {
    let names = |d: &Disk| -> Vec<String> {
        d.files.keys().filter(|k| k.0 == "jpegs").map(|k| k.1.clone()).collect()
    };
    let mut d = Disk::with(&[("jpegs", "b.jpg"), ("jpegs", "a.jpg"), ("jpegs", "c.JPG"), ("raws", "b.arw")]);
    let before = photos_response(&session(true), &names(&d));
    assert_eq!(before.files, strings(&["a.jpg", "b.jpg", "c.JPG"]));
    delete(&mut d, session(true), "b.jpg").unwrap();
    let after = photos_response(&session(true), &names(&d));
    assert_eq!(after.files, strings(&["a.jpg", "c.JPG"]));
    assert_eq!((after.loaded, after.root), (before.loaded, before.root));
    assert_eq!(after.raw_available, before.raw_available);
}

#[test]
fn a_deletion_keeps_every_other_file() {
    let mut d = Disk::with(&[("jpegs", "a.jpg"), ("jpegs", "b.jpg"), ("raws", "a.ARW"), ("_deleted", "c.jpg")]);
    let before = d.clone();
    delete(&mut d, session(true), "a.jpg").unwrap();
    assert_eq!(d.files[&("_deleted".to_string(), "a.jpg".to_string())], 0);
    assert_eq!(d.files[&("_deleted".to_string(), "a.ARW".to_string())], 2);
    for (dir, name) in [("jpegs", "b.jpg"), ("_deleted", "c.jpg")] {
        let k = (dir.to_string(), name.to_string());
        assert_eq!(d.files[&k], before.files[&k]);
    }
    assert_eq!(d.files.len(), before.files.len());
}

#[test]
fn all_raw_extensions_are_looked_for() {
    let mut d = Disk::default();
    let r = delete(&mut d, session(true), "a.b.jpg").unwrap();
    assert_eq!(r.deleted, Vec::<String>::new());
    assert_eq!(
        d.log,
        strings(&[
            "jpegs/a.b.jpg", "raws/a.b.ARW", "raws/a.b.arw", "raws/a.b.CR2", "raws/a.b.cr2", "raws/a.b.NEF",
            "raws/a.b.nef", "raws/a.b.DNG", "raws/a.b.dng", "raws/a.b.RAF", "raws/a.b.raf",
        ])
    );
}

#[test]
fn without_a_folder_of_raws_none_is_looked_for() {
    let mut d = Disk::with(&[("jpegs", "a.jpg"), ("raws", "a.ARW")]);
    let r = delete(&mut d, session(false), "a.jpg").unwrap();
    assert_eq!(r.deleted, strings(&["a.jpg"]));
    assert_eq!(d.log, strings(&["jpegs/a.jpg"]));
    assert!(d.has("raws", "a.ARW"));
}

#[test]
fn a_name_without_a_stem_has_no_raw_file() {
    let mut d = Disk::default();
    let r = delete(&mut d, session(true), ".").unwrap();
    assert_eq!(r.deleted, Vec::<String>::new());
    assert_eq!(d.log, strings(&["jpegs/."]));
}

#[test]
fn a_photo_that_cannot_be_moved_is_not_deleted() {
    let mut d = Disk::with(&[("jpegs", "a.jpg"), ("raws", "a.ARW"), (".thumb_cache", "a.jpg.thumb.jpg")]);
    d.stuck.push(("jpegs".to_string(), "a.jpg".to_string()));
    let before = d.files.clone();
    let e = delete(&mut d, session(true), "a.jpg").unwrap_err();
    assert_eq!(refused(&e), (500, "rename jpg failed"));
    assert_eq!(d.files, before);
}

#[test]
fn a_raw_file_that_cannot_be_moved_does_no_harm() {
    let mut d = Disk::with(&[("jpegs", "a.jpg"), ("raws", "a.ARW"), ("raws", "a.arw")]);
    d.stuck.push(("raws".to_string(), "a.ARW".to_string()));
    let r = delete(&mut d, session(true), "a.jpg").unwrap();
    assert_eq!(r.deleted, strings(&["a.jpg"]));
    assert!(d.has("raws", "a.ARW") && d.has("raws", "a.arw"));
}

#[test]
fn a_thumbnail_that_cannot_be_removed_does_no_harm() {
    let mut d = Disk::with(&[("jpegs", "a.jpg"), (".thumb_cache", "a.jpg.thumb.jpg")]);
    d.stuck.push((".thumb_cache".to_string(), "a.jpg.thumb.jpg".to_string()));
    let r = delete(&mut d, session(true), "a.jpg").unwrap();
    assert!(r.ok);
    assert_eq!(r.deleted, strings(&["a.jpg"]));
    assert!(!d.has("jpegs", "a.jpg") && d.has(".thumb_cache", "a.jpg.thumb.jpg"));
}

#[test]
fn without_a_trash_folder_nothing_is_deleted() {
    let run = delete_photo(&Some(session(true)), "a.jpg").unwrap();
    let run = run.step(DeleteReply::Renamed(true));
    let e = run.step(DeleteReply::Made(Err("full".to_string()))).result().unwrap().unwrap_err();
    assert_eq!(refused(&e), (500, "trash: full"));
}
