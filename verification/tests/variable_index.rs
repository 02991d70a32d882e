use zed_core::variables::{ScopeVariableIndex, Variable, VariableContainer};

fn plain_variable(name: &str, variables_reference: u64) -> Variable {
    Variable {
        name: name.to_string(),
        value: name.to_string(),
        type_: None,
        presentation_hint: None,
        evaluate_name: None,
        variables_reference,
        named_variables: None,
        indexed_variables: None,
        memory_reference: None,
    }
}

fn container(name: &str, variables_reference: u64) -> VariableContainer {
    VariableContainer {
        variable: plain_variable(name, variables_reference),
        depth: 1,
        container_reference: 1,
    }
}

#[test]
fn test_add_initial_variables_to_index() {
    let mut index = ScopeVariableIndex::new();

    assert_eq!(index.variables(), &Vec::<VariableContainer>::new());
    assert_eq!(index.fetched_ids(), &Vec::<u64>::new());

    let variable1 = container("First variable", 0);
    let variable2 = container("Second variable with child", 2);
    let variable3 = container("Third variable", 0);

    index.add_variables(
        1,
        vec![variable1.clone(), variable2.clone(), variable3.clone()],
    );

    assert_eq!(
        &vec![variable1.clone(), variable2.clone(), variable3.clone()],
        index.variables(),
    );
    assert_eq!(&vec![1], index.fetched_ids());
}

/// This covers when you click on a variable that has a nested variable
/// We correctly insert the variables right after the variable you clicked on
#[test]
fn test_add_sub_variables_to_index() {
    let mut index = ScopeVariableIndex::new();

    assert_eq!(index.variables(), &Vec::<VariableContainer>::new());

    let variable1 = container("First variable", 0);
    let variable2 = container("Second variable with child", 2);
    let variable3 = container("Third variable", 0);

    index.add_variables(
        1,
        vec![variable1.clone(), variable2.clone(), variable3.clone()],
    );

    assert_eq!(
        &vec![variable1.clone(), variable2.clone(), variable3.clone()],
        index.variables(),
    );
    assert_eq!(&vec![1], index.fetched_ids());

    let variable4 = container("Fourth variable", 0);
    let variable5 = container("Five variable", 0);

    index.add_variables(2, vec![variable4.clone(), variable5.clone()]);

    assert_eq!(
        &vec![
            variable1.clone(),
            variable2.clone(),
            variable4.clone(),
            variable5.clone(),
            variable3.clone(),
        ],
        index.variables(),
    );
    assert_eq!(index.fetched_ids(), &vec![1, 2]);
}
