use lib::alternatives_to_box_dyn::comparison_example::{
    LowerCaseProcessor, LowerCaseProcessor2, ProcessingPipeline, ReverseProcessor,
    ReverseProcessor2, RuntimeProcessorChain, UpperCaseProcessor, UpperCaseProcessor2,
};
use std::time::Instant;

#[test]
fn test_runtime_polymorphism() {
    let mut chain = RuntimeProcessorChain::new();
    chain.add_processor(Box::new(UpperCaseProcessor));
    chain.add_processor(Box::new(ReverseProcessor));
    chain.add_processor(Box::new(LowerCaseProcessor));

    let result = chain.process("Hello World");
    println!("Runtime result: {}", result);

    let names = chain.get_processor_names();
    println!("Runtime processors: {:?}", names);

    // Note: This approach allows dynamic composition at runtime
    // but has overhead of heap allocation and dynamic dispatch
}

#[test]
fn test_compile_time_polymorphism() {
    let upper_processor = UpperCaseProcessor2::new();
    let reverse_processor = ReverseProcessor2::new();
    let lower_processor = LowerCaseProcessor2::new();

    let input = "Hello World";
    let step1 = upper_processor.process(input);
    let step2 = reverse_processor.process(&step1);
    let result = lower_processor.process(&step2);

    println!("Compile-time result: {}", result);
    println!(
        "Processors used: {}, {}, {}",
        upper_processor.name(),
        reverse_processor.name(),
        lower_processor.name()
    );

    // Note: This approach has zero runtime overhead
    // but the processing chain must be known at compile time
}

#[test]
fn test_phantom_data_state_machine() {
    let pipeline = ProcessingPipeline::new("Hello World".to_string());

    // This would fail to compile: pipeline.finalize();
    // because unprocessed data cannot be finalized

    let result = pipeline
        .apply_uppercase()
        .then_reverse()
        .then_lowercase()
        .finalize();

    println!("State machine result: {}", result);

    // Note: This approach prevents invalid state transitions at compile time
    // and has zero runtime overhead
}

#[test]
fn performance_comparison() {
    let iterations = 100_000;
    let input = "Hello World! This is a test string for performance comparison.";

    // Runtime polymorphism benchmark
    let start = Instant::now();
    for _ in 0..iterations {
        let mut chain = RuntimeProcessorChain::new();
        chain.add_processor(Box::new(UpperCaseProcessor));
        chain.add_processor(Box::new(ReverseProcessor));
        let _result = chain.process(input);
    }
    let runtime_duration = start.elapsed();

    // Compile-time polymorphism benchmark
    let start = Instant::now();
    for _ in 0..iterations {
        let upper_processor = UpperCaseProcessor2::new();
        let reverse_processor = ReverseProcessor2::new();
        let step1 = upper_processor.process(input);
        let _result = reverse_processor.process(&step1);
    }
    let compile_time_duration = start.elapsed();

    println!("Runtime polymorphism: {:?}", runtime_duration);
    println!("Compile-time polymorphism: {:?}", compile_time_duration);
    println!(
        "Speedup: {:.2}x",
        runtime_duration.as_nanos() as f64 / compile_time_duration.as_nanos() as f64
    );
}
