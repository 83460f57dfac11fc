#[test]
fn test_vs_oracle() {
    // This test compiles natively, not as wasm
    // It uses the rlib build of gba_emu
    println!("This test needs to be run as a native binary");
}
