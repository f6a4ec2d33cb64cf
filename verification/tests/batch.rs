use sgp_core::area::calculate_area;
use sgp_core::area::calculate_batch_areas;
use sgp_core::area::Dimension;
use sgp_core::batch::process_production_batch;
use sgp_core::batch::IlhosConfig;
use sgp_core::batch::ProductionItem;

fn bare_item() -> ProductionItem {
    ProductionItem {
        id: None,
        tipo_producao: "Lona".to_string(),
        descricao: String::new(),
        width: None,
        height: None,
        valor: None,
        valor_adicionais: None,
        vendedor: None,
        designer: None,
        tecido: None,
        material: None,
        acabamentos: None,
        ilhos_config: None,
    }
}

#[test]
fn area_is_exact_product() {
    // 100 cm by 50 cm, in hundredths of a centimeter; the area is in
    // ten-thousandths of a square centimeter.
    let r = calculate_area(10000, 5000);
    assert_eq!(r.area, 50_000_000);
    assert_eq!(r.formatted_area, "5.000,00");
    assert_eq!(r.width, 10000);
    assert_eq!(r.height, 5000);
}

#[test]
fn area_display_rounds_half_up() {
    // 150.50 cm by 200.75 cm = 30212.875 square cm, displayed as 30212.88.
    let r = calculate_area(15050, 20075);
    assert_eq!(r.area, 302_128_750);
    assert_eq!(r.formatted_area, "30.212,88");
}

#[test]
fn area_of_negative_length() {
    let r = calculate_area(-10000, 5000);
    assert_eq!(r.area, -50_000_000);
    assert_eq!(r.formatted_area, "-5.000,00");
}

#[test]
fn batch_areas_preserve_order() {
    let dims = vec![
        Dimension { width: 10000, height: 5000 },
        Dimension { width: 100, height: 100 },
    ];
    let rs = calculate_batch_areas(&dims);
    assert_eq!(rs.len(), 2);
    assert_eq!(rs[0].area, 50_000_000);
    assert_eq!(rs[0].formatted_area, "5.000,00");
    // 1 cm by 1 cm = 1 square cm.
    assert_eq!(rs[1].area, 10000);
    assert_eq!(rs[1].formatted_area, "1,00");
}

#[test]
fn empty_batch_aggregates_to_zero() {
    let r = process_production_batch(Vec::new());
    assert_eq!(r.item_count, 0);
    assert_eq!(r.total_area, 0);
    assert_eq!(r.total_value, 0);
    assert!(r.items.is_empty());
    assert_eq!(r.calculation_time_ms, 0);
}

#[test]
fn batch_of_two_items_with_and_without_dimensions() {
    // One item of 100 cm by 50 cm worth 10.00, one without dimensions
    // worth 5.00: total area 5000 square cm, total value 15.00, both items
    // counted and passed through.
    let mut first = bare_item();
    first.width = Some(10000);
    first.height = Some(5000);
    first.valor = Some(1000);
    let mut second = bare_item();
    second.valor = Some(500);
    let r = process_production_batch(vec![first, second]);
    assert_eq!(r.item_count, 2);
    assert_eq!(r.total_area, 50_000_000);
    assert_eq!(r.total_value, 1500);
    assert_eq!(r.items.len(), 2);
    assert_eq!(r.items[0].width, Some(10000));
    assert_eq!(r.items[1].width, None);
    assert_eq!(r.items[1].valor, Some(500));
}

#[test]
fn batch_value_includes_additional_value() {
    let mut item = bare_item();
    item.valor = Some(1000);
    item.valor_adicionais = Some(250);
    item.ilhos_config = Some(IlhosConfig { quantidade: 10, valor_unitario: 50, distancia: 3000 });
    let r = process_production_batch(vec![item]);
    assert_eq!(r.item_count, 1);
    assert_eq!(r.total_area, 0);
    assert_eq!(r.total_value, 1250);
    assert_eq!(
        r.items[0].ilhos_config,
        Some(IlhosConfig { quantidade: 10, valor_unitario: 50, distancia: 3000 })
    );
}

#[test]
fn batch_item_with_one_dimension_adds_no_area() {
    let mut item = bare_item();
    item.width = Some(10000);
    let r = process_production_batch(vec![item]);
    assert_eq!(r.total_area, 0);
    assert_eq!(r.total_value, 0);
    assert_eq!(r.item_count, 1);
}
