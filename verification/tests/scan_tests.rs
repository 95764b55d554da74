use region_scan::scan::{aggregate_results, list_chunks_with_entities_in_region, scan_containers};
use region_scan::tags::{TagCompound, TagEntry, TagValue};
use region_scan::text::encode_text;
use region_scan::{ChunkCoordinate, ScanError};

fn entry(key: &str, value: TagValue) -> TagEntry {
    TagEntry { key: key.as_bytes().to_vec(), value }
}

fn empty_compound() -> TagCompound {
    TagCompound { entries: Vec::new() }
}

fn chunk(x: i32, z: i32, entities: Vec<TagCompound>, tile_entities: Vec<TagCompound>) -> TagCompound {
    let level = TagCompound {
        entries: vec![
            entry("xPos", TagValue::Int(x)),
            entry("zPos", TagValue::Int(z)),
            entry("Entities", TagValue::CompoundList(entities)),
            entry("TileEntities", TagValue::CompoundList(tile_entities)),
        ],
    };
    TagCompound { entries: vec![entry("Level", TagValue::Compound(level))] }
}

fn coords_as_sorted_pairs(v: &[ChunkCoordinate]) -> Vec<(i32, i32)> {
    let mut pairs: Vec<(i32, i32)> = v.iter().map(|c| (c.x, c.z)).collect();
    pairs.sort();
    pairs
}

#[test]
fn empty_directory_yields_empty_result() {
    let containers: Vec<Vec<TagCompound>> = Vec::new();
    let r = scan_containers(&containers).unwrap();
    assert!(r.is_empty());
}

#[test]
fn container_scan_keeps_only_matching_chunks() {
    let chunks = vec![
        chunk(3, 4, vec![empty_compound()], vec![]),
        chunk(5, 6, vec![], vec![]),
        chunk(-1, -2, vec![], vec![empty_compound()]),
    ];
    let r = list_chunks_with_entities_in_region(&chunks).unwrap();
    assert_eq!(coords_as_sorted_pairs(&r), vec![(-1, -2), (3, 4)]);
}

#[test]
fn malformed_chunk_fails_the_whole_scan() {
    let containers = vec![
        vec![chunk(1, 1, vec![empty_compound()], vec![])],
        vec![empty_compound()],
    ];
    let r = scan_containers(&containers);
    assert!(matches!(r, Err(ScanError::MalformedChunk)));
}

#[test]
fn aggregate_concatenates_all_results() {
    let results = vec![
        vec![ChunkCoordinate { x: 1, z: 2 }],
        vec![],
        vec![ChunkCoordinate { x: 3, z: 4 }, ChunkCoordinate { x: 5, z: 6 }],
    ];
    let r = aggregate_results(&results);
    assert_eq!(
        coords_as_sorted_pairs(&r),
        vec![(1, 2), (3, 4), (5, 6)]
    );
}

#[test]
fn aggregate_is_order_independent_as_a_set() {
    let a = vec![
        vec![ChunkCoordinate { x: 1, z: 2 }],
        vec![ChunkCoordinate { x: 3, z: 4 }],
    ];
    let b = vec![
        vec![ChunkCoordinate { x: 3, z: 4 }],
        vec![ChunkCoordinate { x: 1, z: 2 }],
    ];
    let ra = aggregate_results(&a);
    let rb = aggregate_results(&b);
    assert_eq!(coords_as_sorted_pairs(&ra), coords_as_sorted_pairs(&rb));
}

#[test]
fn scanning_twice_yields_the_same_coordinates() {
    let containers = vec![
        vec![chunk(3, 4, vec![empty_compound()], vec![]), chunk(9, 9, vec![], vec![])],
        vec![chunk(-5, 100, vec![], vec![empty_compound()])],
    ];
    let first = scan_containers(&containers).unwrap();
    let second = scan_containers(&containers).unwrap();
    assert_eq!(coords_as_sorted_pairs(&first), coords_as_sorted_pairs(&second));
}

/// Runs the bounded-channel pipeline over in-memory containers with
/// the given worker count, mirroring the library's intended use: one
/// producer, `workers` scanning workers, one collector.
fn run_pipeline(containers: Vec<Vec<TagCompound>>, workers: usize) -> Vec<ChunkCoordinate> {
    let (snd_container, rcv_container) = crossbeam_channel::bounded::<Vec<TagCompound>>(1);
    let (snd_result, rcv_result) = crossbeam_channel::bounded::<Vec<ChunkCoordinate>>(1);

    crossbeam::scope(|s| {
        s.spawn(move |_| {
            for container in containers {
                let _ = snd_container.send(container);
            }
            drop(snd_container);
        });

        for _ in 0..workers {
            let (sndr, rcvc) = (snd_result.clone(), rcv_container.clone());
            s.spawn(move |_| {
                rcvc.iter().for_each(|container| {
                    let result = list_chunks_with_entities_in_region(&container).unwrap();
                    let _ = sndr.send(result);
                })
            });
        }

        drop(snd_result);
        drop(rcv_container);

        let collected: Vec<Vec<ChunkCoordinate>> = rcv_result.iter().collect();
        aggregate_results(&collected)
    })
    .unwrap()
}

fn sample_containers() -> Vec<Vec<TagCompound>> {
    vec![
        vec![chunk(1, 2, vec![empty_compound()], vec![])],
        vec![chunk(3, 4, vec![], vec![empty_compound()]), chunk(7, 8, vec![], vec![])],
        vec![chunk(-5, 100, vec![empty_compound()], vec![])],
        vec![],
    ]
}

#[test]
fn worker_count_does_not_change_the_coordinate_set() {
    let sequential = scan_containers(&sample_containers()).unwrap();
    let expected = coords_as_sorted_pairs(&sequential);
    for workers in [1usize, 2, 8] {
        let got = run_pipeline(sample_containers(), workers);
        assert_eq!(coords_as_sorted_pairs(&got), expected);
    }
}

#[test]
fn two_chunk_scenario_with_two_workers_prints_one_line() {
    let containers = vec![vec![
        chunk(3, 4, vec![empty_compound()], vec![]),
        chunk(5, 6, vec![], vec![]),
    ]];
    let result = run_pipeline(containers, 2);
    let out = encode_text(&result);
    assert_eq!(out, b"(3, 4)\n".to_vec());
}
