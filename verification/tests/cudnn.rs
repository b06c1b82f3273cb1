use cuda_builder::{cudnn_header_files, cudnn_search_dirs, find_cudnn_include_dir, version_dir_name, windows_cudnn_bases, CudnnSdk, HostOs, HostPath};

const HEADER: &str = "/* cudnn_version.h */\r\n#define CUDNN_MAJOR 9\r\n#define CUDNN_MINOR 8\n#define CUDNN_PATCHLEVEL 0\n\n#define CUDNN_VERSION (CUDNN_MAJOR * 10000 + CUDNN_MINOR * 100 + CUDNN_PATCHLEVEL)\n";

#[test]
fn parses_the_version_macros() {
    assert_eq!(CudnnSdk::parse_cudnn_version(HEADER).unwrap(), [9, 8, 0]);
    let dirs = vec![HostPath::from_str("/usr/local/include"), HostPath::from_str("/usr/include")];
    let sdk = CudnnSdk::new(&dirs, &vec![false, true], HEADER).unwrap();
    assert_eq!(sdk.cudnn_version(), 90800);
    assert_eq!(sdk.cudnn_version_major(), 9);
    assert_eq!(sdk.cudnn_version_minor(), 8);
    assert_eq!(sdk.cudnn_version_patch(), 0);
    assert_eq!(*sdk.cudnn_include_path(), HostPath::from_str("/usr/include"));
}

#[test]
fn reports_missing_and_unparsable_macros() {
    assert_eq!(
        CudnnSdk::parse_cudnn_version("#define CUDNN_MAJOR 9\n").unwrap_err(),
        "Cannot find CUDNN_MINOR from cuDNN header file."
    );
    assert_eq!(
        CudnnSdk::parse_cudnn_version("#define CUDNN_MAJOR 9x\n#define CUDNN_MINOR 1\n").unwrap_err(),
        "Cannot parse CUDNN_MAJOR as u32: '9x'"
    );
    assert_eq!(
        CudnnSdk::parse_cudnn_version("#define CUDNN_MAJOR 4294967296\n").unwrap_err(),
        "Cannot parse CUDNN_MAJOR as u32: '4294967296'"
    );
    assert_eq!(
        CudnnSdk::parse_cudnn_version("#define CUDNN_MAJOR\n").unwrap_err(),
        "Cannot parse CUDNN_MAJOR as u32: 'CUDNN_MAJOR'"
    );
    assert_eq!(
        CudnnSdk::parse_cudnn_version("").unwrap_err(),
        "Cannot find CUDNN_MAJOR from cuDNN header file."
    );
}

#[test]
fn accepts_what_str_parse_accepts() {
    let h = "#define CUDNN_MAJOR +7\n#define CUDNN_MINOR\t4294967295 \n#define CUDNN_PATCHLEVEL 007";
    assert_eq!(CudnnSdk::parse_cudnn_version(h).unwrap(), [7, 4294967295, 7]);
}

#[test]
fn searches_default_directories_then_the_override() {
    let dirs = cudnn_search_dirs(HostOs::Other, &Vec::new(), Some(HostPath::from_str("/opt/cudnn/include")));
    let texts: Vec<_> = dirs.iter().map(|d| String::from_utf8(d.bytes.clone()).unwrap()).collect();
    assert_eq!(
        texts,
        [
            "/usr/include",
            "/usr/local/include",
            "/usr/include/x86_64-linux-gnu",
            "/usr/include/aarch64-linux-gnu",
            "/usr/local/include/x86_64-linux-gnu",
            "/usr/local/include/aarch64-linux-gnu",
            "/opt/cudnn/include",
        ]
    );
    let found = find_cudnn_include_dir(&dirs, &vec![false, true, false, false, false, false, true]);
    assert_eq!(found.unwrap(), HostPath::from_str("/usr/local/include"));
    assert_eq!(
        find_cudnn_include_dir(&dirs, &vec![false; 7]).unwrap_err(),
        "Cannot find cuDNN include directory."
    );
}

#[test]
fn windows_discovers_versioned_directories() {
    let bases = windows_cudnn_bases();
    let listed = vec![
        (bases[0].clone(), "v9.0".to_string()),
        (bases[0].clone(), "docs".to_string()),
        (bases[1].clone(), "v13.2".to_string()),
        (bases[1].clone(), "v13.".to_string()),
    ];
    let dirs = cudnn_search_dirs(HostOs::Windows, &listed, None);
    let texts: Vec<_> = dirs.iter().map(|d| String::from_utf8(d.bytes.clone()).unwrap()).collect();
    assert_eq!(
        texts,
        [
            "C:/Program Files/NVIDIA/CUDNN/v9.x/include",
            "C:/Program Files/NVIDIA/CUDNN/v8.x/include",
            "C:/Program Files/NVIDIA/CUDNN/v9.0/include",
            "C:/Program Files/NVIDIA GPU Computing Toolkit/CUDA/v13.2/include",
        ]
    );
}

#[test]
fn version_directory_names() {
    for ok in ["v9", "v9.0", "v10.2", "v13.0.1"] {
        assert!(version_dir_name(ok), "{ok}");
    }
    for bad in ["v", "9.0", "v.1", "v1.", "v1..2", "v1.x", "V1"] {
        assert!(!version_dir_name(bad), "{bad}");
    }
}

#[test]
fn include_directory_needs_both_headers() {
    let files = cudnn_header_files(&HostPath::from_str("/usr/include"));
    assert_eq!(
        files,
        [HostPath::from_str("/usr/include/cudnn.h"), HostPath::from_str("/usr/include/cudnn_version.h")]
    );
}

#[test]
fn sdk_needs_a_directory_with_the_headers() {
    let dirs = vec![HostPath::from_str("/usr/include")];
    assert_eq!(CudnnSdk::new(&dirs, &vec![false], HEADER).unwrap_err(), "Cannot find cuDNN include directory.");
    assert_eq!(
        CudnnSdk::new(&dirs, &vec![true], "#define CUDNN_MAJOR 9\n").unwrap_err(),
        "Cannot find CUDNN_MINOR from cuDNN header file."
    );
}
