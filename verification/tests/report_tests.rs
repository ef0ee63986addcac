use montecarlo::report::{render_section, scenario_label};
use montecarlo::MontecarloConfig;

#[test]
fn render_section_exact_text() {
    let values = vec![String::from("1.5"), String::from("0.75")];
    let text = render_section("demo scenario", &values);
    assert_eq!(text, "# demo scenario\n1.5\n0.75\n");
}

#[test]
fn render_section_without_values_is_header_only() {
    let values: Vec<String> = Vec::new();
    let text = render_section("empty", &values);
    assert_eq!(text, "# empty\n");
}

#[test]
fn scenario_label_exact_text() {
    let baseline = scenario_label(false, "33.6", "1.61");
    assert_eq!(baseline, "Without leverage (r = 33.6% per year, sigma = 1.61%)");
    let leveraged = scenario_label(true, "79.5", "3.22");
    assert_eq!(leveraged, "With leverage (r = 79.5% per year, sigma = 3.22%)");
}

#[test]
fn config_variants_carry_their_fields() {
    let file = MontecarloConfig::SaveToFile { filename: String::from("out.txt") };
    match file {
        MontecarloConfig::SaveToFile { filename } => assert_eq!(filename, "out.txt"),
        MontecarloConfig::PassToPython { .. } => panic!("wrong variant"),
    }
    let pipe = MontecarloConfig::PassToPython {
        xlim_left: -3,
        xlim_right: 4,
        fig_filename: "histogram.png",
    };
    match pipe {
        MontecarloConfig::SaveToFile { .. } => panic!("wrong variant"),
        MontecarloConfig::PassToPython { xlim_left, xlim_right, fig_filename } => {
            assert_eq!(xlim_left, -3);
            assert_eq!(xlim_right, 4);
            assert_eq!(fig_filename, "histogram.png");
        }
    }
}
