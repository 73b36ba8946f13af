use std::time::Instant;

#[test]
fn bench_mime_type_detection() {
    let common_types = ["html", "css", "js", "png", "jpg", "pdf", "woff2"];
    const ITERATIONS: usize = 100000;

    let start = Instant::now();
    for _ in 0..ITERATIONS {
        for ext in &common_types {
            let filename = format!("file.{}", ext);
            let _result = kiss::get_mime_type_enum(&filename);
        }
    }
    let duration = start.elapsed();

    let total_ops = ITERATIONS * common_types.len();
    let ops_per_sec = total_ops as f64 / duration.as_secs_f64();

    println!(
        "MIME type detection: {} ops in {:?} ({:.0} ops/sec)",
        total_ops, duration, ops_per_sec
    );

    assert!(ops_per_sec > 200000.0, "MIME type detection should be >200k ops/sec");
}
