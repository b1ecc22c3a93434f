use asciigraph::Graph;

fn graph_samples() -> Vec<(Graph, String)> {
    let mut result = vec![];
    let data: Vec<(String, i32)> = (0..256).map(|i| (i.to_string(), i)).collect();
    let mut linear = Graph::new(32, 32);
    linear.set_title("test").set_y_axis_label("num").set_x_axis_label("ber").set_y_max(278).set_y_min(2);
    linear.set_1d_labeled_data(&data);
    let linear_answer1 = String::from(
        "                   test                   \nnum                                       \n   278│                                   \n      │                                   \n260.75│                               ▄   \n      │                               █   \n 243.5│                             ▄▆█   \n      │                             ███   \n226.25│                           ▆▆███   \n      │                           █████   \n   209│                         ███████   \n      │                        ▂███████   \n191.75│                       █████████   \n      │                     ▂▂█████████   \n 174.5│                     ███████████   \n      │                   ▂▄███████████   \n157.25│                   █████████████   \n      │                 ▄▄█████████████   \n   140│                 ███████████████   \n      │               ▄▆███████████████   \n122.75│               █████████████████   \n      │             ▆██████████████████   \n 105.5│             ███████████████████   \n      │           █████████████████████   \n 88.25│          ▂█████████████████████   \n      │         ███████████████████████   \n    71│       ▂▂███████████████████████   \n      │       █████████████████████████   \n 53.75│     ▂▄█████████████████████████   \n      │     ███████████████████████████   \n  36.5│   ▄▄███████████████████████████   \n      │   █████████████████████████████   \n 19.25│ ▆▆█████████████████████████████   \n      │ ███████████████████████████████   \n      ╰────────────────────────────────ber\n       0  31  63  95  127  160  207       \n        15  47  79  111  144  191  224    ",
    );

    result.push((linear.clone(), linear_answer1));

    linear.set_plot_height(12);
    linear.set_plot_width(12);

    let linear_answer2 = String::from(
        "        test       \nnum                \n278│               \n   │           █   \n232│         ▂▂█   \n   │         ███   \n186│       ▄▄███   \n   │       █████   \n140│     ▄▄█████   \n   │     ███████   \n 94│   ▆▆███████   \n   │   █████████   \n 48│ ▆▆█████████   \n   │ ███████████   \n   ╰────────────ber\n    0  84  169     \n     41  127       ",
    );

    result.push((linear.clone(), linear_answer2));

    linear.set_paddings([1, 2, 3, 4]);

    let linear_answer3 = String::from(
        "                          \n           test           \n   num                    \n   278│                   \n      │           █       \n   232│         ▂▂█       \n      │         ███       \n   186│       ▄▄███       \n      │       █████       \n   140│     ▄▄█████       \n      │     ███████       \n    94│   ▆▆███████       \n      │   █████████       \n    48│ ▆▆█████████       \n      │ ███████████       \n      ╰────────────ber    \n       0  84  169         \n        41  127           \n                          \n                          ",
    );
    result.push((linear.clone(), linear_answer3));

    linear.set_paddings([0, 0, 0, 0]);
    linear.set_plot_width(72);
    let linear_answer4 = String::from(
        "                                      test                                     \nnum                                                                            \n278│                                                                           \n   │                                                                 ▂▂▄▄▆▆█   \n232│                                                           ▂▂▄▄▆████████   \n   │                                                     ▂▄▆▆███████████████   \n186│                                               ▄▄▆▆█████████████████████   \n   │                                       ▂▂▄▄▆▆███████████████████████████   \n140│                                 ▂▂▄▄▆██████████████████████████████████   \n   │                           ▂▂▄▆█████████████████████████████████████████   \n 94│                     ▄▄▆▆███████████████████████████████████████████████   \n   │              ▂▄▄▆▆█████████████████████████████████████████████████████   \n 48│       ▂▂▄▄▆▆███████████████████████████████████████████████████████████   \n   │ ▂▂▄▆███████████████████████████████████████████████████████████████████   \n   ╰────────────────────────────────────────────────────────────────────────ber\n    0  13  27  41  55  70  84  98  112  128  148  163  183  199  219  234      \n     6  14  28  42  56  71  85  99  113  134  149  169  184  205  220  240     ",
    );

    result.push((linear.clone(), linear_answer4));

    linear.set_plot_width(12).set_y_axis_label("숫자");

    let linear_answer5 = String::from(
        "        test       \n숫자                 \n278│               \n   │           █   \n232│         ▂▂█   \n   │         ███   \n186│       ▄▄███   \n   │       █████   \n140│     ▄▄█████   \n   │     ███████   \n 94│   ▆▆███████   \n   │   █████████   \n 48│ ▆▆█████████   \n   │ ███████████   \n   ╰────────────ber\n    0  84  169     \n     41  127       ",
    );

    result.push((linear.clone(), linear_answer5));

    result
}

fn find_difference(result: &String, answer: &String) -> String {
    let lines_r: Vec<&str> = result.split('\n').collect();
    let lines_a: Vec<&str> = answer.split('\n').collect();
    let mut diffs = vec![];
    for i in 0..(lines_r.len().min(lines_a.len())) {
        if lines_r[i] != lines_a[i] {
            diffs.push(format!("{i}: {:?}, {:?}\n", lines_r[i], lines_a[i]));
        }
    }
    let diffs = diffs.concat();
    format!("\n\nresult\n\n{result}\n\nanswer\n\n{answer}\n\ndiffs\n\n{diffs}\n\n")
}

#[test]
fn test_graph_samples() {
    let mut failures = vec![];

    for (graph, answer) in graph_samples().into_iter() {
        assert!(graph.is_valid());
        let result = graph.draw();

        if result != answer {
            failures.push(find_difference(&result, &answer));
        }
    }

    if failures.len() > 0 {
        panic!("{} out of {} cases have failed!!!\n\n{}", failures.len(), graph_samples().len(), failures.concat());
    }
}
